use emmc_extcsd::descriptor::{
    ByteOrder, MmcIocCmd, DESCRIPTOR_ALIGN, DESCRIPTOR_SIZE, OFFSET_ARG, OFFSET_BLKSZ,
    OFFSET_BLOCKS, OFFSET_CMD_TIMEOUT_MS, OFFSET_DATA_PTR, OFFSET_DATA_TIMEOUT_NS, OFFSET_FLAGS,
    OFFSET_OPCODE, OFFSET_PAD, OFFSET_POSTSLEEP_MAX_US, OFFSET_POSTSLEEP_MIN_US, OFFSET_RESPONSE,
    OFFSET_WRITE_FLAG,
};
use emmc_extcsd::transport::{
    completion, mmc_ioc_cmd_request, traces_commands, traces_responses, Event,
};

fn sample() -> MmcIocCmd {
    MmcIocCmd {
        write_flag: 0x0102_0304,
        opcode: 0x1112_1314,
        arg: 0x2122_2324,
        response: [0x3132_3334, 0x4142_4344, 0x5152_5354, 0x6162_6364],
        flags: 0x7172_7374,
        blksz: 0x8182_8384,
        blocks: 0x9192_9394,
        postsleep_min_us: 0xa1a2_a3a4,
        postsleep_max_us: 0xb1b2_b3b4,
        data_timeout_ns: 0xc1c2_c3c4,
        cmd_timeout_ms: 0xd1d2_d3d4,
        __pad: 0xe1e2_e3e4,
        data_ptr: 0xf1f2_f3f4_f5f6_f7f8,
    }
}

#[test]
fn new_sets_three_fields_and_zeroes_the_rest() {
    let cmd = MmcIocCmd::new(13, 0x0001_0000, 0x15);
    let expected = MmcIocCmd {
        write_flag: 0,
        opcode: 13,
        arg: 0x0001_0000,
        response: [0; 4],
        flags: 0x15,
        blksz: 0,
        blocks: 0,
        postsleep_min_us: 0,
        postsleep_max_us: 0,
        data_timeout_ns: 0,
        cmd_timeout_ms: 0,
        __pad: 0,
        data_ptr: 0,
    };
    assert_eq!(cmd, expected);
}

#[test]
fn set_timeout_changes_only_the_timeouts() {
    let cmd = sample().set_timeout(1500, 7);
    let expected = MmcIocCmd { cmd_timeout_ms: 1500, data_timeout_ns: 7, ..sample() };
    assert_eq!(cmd, expected);
}

#[test]
fn set_data_changes_only_the_data_phase() {
    let cmd = sample().set_data(0xdead_beef_0000_1000, 1, 512);
    let expected =
        MmcIocCmd { data_ptr: 0xdead_beef_0000_1000, blocks: 1, blksz: 512, ..sample() };
    assert_eq!(cmd, expected);
}

#[test]
fn builders_chain() {
    let cmd = MmcIocCmd::new(8, 0, 0x35).set_data(0x1000, 1, 512).set_timeout(0, 0);
    assert_eq!(cmd.opcode, 8);
    assert_eq!(cmd.arg, 0);
    assert_eq!(cmd.flags, 0x35);
    assert_eq!(cmd.data_ptr, 0x1000);
    assert_eq!(cmd.blocks, 1);
    assert_eq!(cmd.blksz, 512);
    assert_eq!(cmd.cmd_timeout_ms, 0);
    assert_eq!(cmd.data_timeout_ns, 0);
    assert_eq!(cmd.write_flag, 0);
    assert_eq!(cmd.response, [0; 4]);
}

#[test]
fn image_is_seventy_two_bytes_for_every_descriptor() {
    assert_eq!(DESCRIPTOR_SIZE, 72);
    assert_eq!(DESCRIPTOR_ALIGN, 8);
    assert_eq!(DESCRIPTOR_SIZE % DESCRIPTOR_ALIGN, 0);
    for cmd in [sample(), MmcIocCmd::new(0, 0, 0), MmcIocCmd::new(u32::MAX, u32::MAX, u32::MAX)] {
        for order in [ByteOrder::Little, ByteOrder::Big] {
            assert_eq!(cmd.to_bytes(order).len(), 72);
        }
    }
}

#[test]
fn fields_lie_in_order_and_are_aligned() {
    let words = [
        OFFSET_WRITE_FLAG,
        OFFSET_OPCODE,
        OFFSET_ARG,
        OFFSET_RESPONSE,
        OFFSET_RESPONSE + 4,
        OFFSET_RESPONSE + 8,
        OFFSET_RESPONSE + 12,
        OFFSET_FLAGS,
        OFFSET_BLKSZ,
        OFFSET_BLOCKS,
        OFFSET_POSTSLEEP_MIN_US,
        OFFSET_POSTSLEEP_MAX_US,
        OFFSET_DATA_TIMEOUT_NS,
        OFFSET_CMD_TIMEOUT_MS,
        OFFSET_PAD,
    ];
    for (index, offset) in words.iter().enumerate() {
        assert_eq!(*offset, 4 * index);
    }
    assert_eq!(OFFSET_DATA_PTR, 64);
    assert_eq!(OFFSET_DATA_PTR % 8, 0);
    assert_eq!(OFFSET_DATA_PTR + 8, DESCRIPTOR_SIZE);
}

#[test]
fn little_endian_image_has_every_byte_in_place() {
    let expected: [u8; 72] = [
        0x04, 0x03, 0x02, 0x01, // write_flag
        0x14, 0x13, 0x12, 0x11, // opcode
        0x24, 0x23, 0x22, 0x21, // arg
        0x34, 0x33, 0x32, 0x31, // response[0]
        0x44, 0x43, 0x42, 0x41, // response[1]
        0x54, 0x53, 0x52, 0x51, // response[2]
        0x64, 0x63, 0x62, 0x61, // response[3]
        0x74, 0x73, 0x72, 0x71, // flags
        0x84, 0x83, 0x82, 0x81, // blksz
        0x94, 0x93, 0x92, 0x91, // blocks
        0xa4, 0xa3, 0xa2, 0xa1, // postsleep_min_us
        0xb4, 0xb3, 0xb2, 0xb1, // postsleep_max_us
        0xc4, 0xc3, 0xc2, 0xc1, // data_timeout_ns
        0xd4, 0xd3, 0xd2, 0xd1, // cmd_timeout_ms
        0xe4, 0xe3, 0xe2, 0xe1, // __pad
        0x00, 0x00, 0x00, 0x00, // padding
        0xf8, 0xf7, 0xf6, 0xf5, 0xf4, 0xf3, 0xf2, 0xf1, // data_ptr
    ];
    assert_eq!(sample().to_bytes(ByteOrder::Little), expected);
}

#[test]
fn big_endian_image_has_every_byte_in_place() {
    let expected: [u8; 72] = [
        0x01, 0x02, 0x03, 0x04, // write_flag
        0x11, 0x12, 0x13, 0x14, // opcode
        0x21, 0x22, 0x23, 0x24, // arg
        0x31, 0x32, 0x33, 0x34, // response[0]
        0x41, 0x42, 0x43, 0x44, // response[1]
        0x51, 0x52, 0x53, 0x54, // response[2]
        0x61, 0x62, 0x63, 0x64, // response[3]
        0x71, 0x72, 0x73, 0x74, // flags
        0x81, 0x82, 0x83, 0x84, // blksz
        0x91, 0x92, 0x93, 0x94, // blocks
        0xa1, 0xa2, 0xa3, 0xa4, // postsleep_min_us
        0xb1, 0xb2, 0xb3, 0xb4, // postsleep_max_us
        0xc1, 0xc2, 0xc3, 0xc4, // data_timeout_ns
        0xd1, 0xd2, 0xd3, 0xd4, // cmd_timeout_ms
        0xe1, 0xe2, 0xe3, 0xe4, // __pad
        0x00, 0x00, 0x00, 0x00, // padding
        0xf1, 0xf2, 0xf3, 0xf4, 0xf5, 0xf6, 0xf7, 0xf8, // data_ptr
    ];
    assert_eq!(sample().to_bytes(ByteOrder::Big), expected);
}

#[test]
fn image_agrees_with_the_std_byte_conversions() {
    let cmd = sample();
    let little = cmd.to_bytes(ByteOrder::Little);
    let big = cmd.to_bytes(ByteOrder::Big);
    assert_eq!(little[OFFSET_OPCODE..OFFSET_OPCODE + 4], cmd.opcode.to_le_bytes());
    assert_eq!(big[OFFSET_OPCODE..OFFSET_OPCODE + 4], cmd.opcode.to_be_bytes());
    assert_eq!(little[OFFSET_FLAGS..OFFSET_FLAGS + 4], cmd.flags.to_le_bytes());
    assert_eq!(big[OFFSET_FLAGS..OFFSET_FLAGS + 4], cmd.flags.to_be_bytes());
    assert_eq!(little[OFFSET_DATA_PTR..], cmd.data_ptr.to_le_bytes());
    assert_eq!(big[OFFSET_DATA_PTR..], cmd.data_ptr.to_be_bytes());
    assert_eq!(little[OFFSET_BLKSZ..OFFSET_BLKSZ + 4], cmd.blksz.to_le_bytes());
    assert_eq!(little[OFFSET_BLOCKS..OFFSET_BLOCKS + 4], cmd.blocks.to_le_bytes());
    assert_eq!(
        little[OFFSET_CMD_TIMEOUT_MS..OFFSET_CMD_TIMEOUT_MS + 4],
        cmd.cmd_timeout_ms.to_le_bytes()
    );
    assert_eq!(
        little[OFFSET_DATA_TIMEOUT_NS..OFFSET_DATA_TIMEOUT_NS + 4],
        cmd.data_timeout_ns.to_le_bytes()
    );
}

#[test]
fn status_command_image_on_a_little_endian_host() {
    let cmd = MmcIocCmd::new(13, 0, 0x15).set_timeout(1500, 0);
    let image = cmd.to_bytes(ByteOrder::Little);
    let mut expected = [0u8; 72];
    expected[4] = 13;
    expected[28] = 0x15;
    expected[52] = 0xdc;
    expected[53] = 0x05;
    assert_eq!(image, expected);
}

#[test]
fn reading_back_an_image_gives_the_descriptor() {
    let blank = MmcIocCmd::new(0, 0, 0);
    let full = MmcIocCmd {
        write_flag: u32::MAX,
        opcode: u32::MAX,
        arg: u32::MAX,
        response: [u32::MAX; 4],
        flags: u32::MAX,
        blksz: u32::MAX,
        blocks: u32::MAX,
        postsleep_min_us: u32::MAX,
        postsleep_max_us: u32::MAX,
        data_timeout_ns: u32::MAX,
        cmd_timeout_ms: u32::MAX,
        __pad: u32::MAX,
        data_ptr: u64::MAX,
    };
    for cmd in [sample(), blank, full] {
        for order in [ByteOrder::Little, ByteOrder::Big] {
            let image = cmd.to_bytes(order);
            assert_eq!(MmcIocCmd::from_bytes(&image, order), cmd);
        }
    }
}

#[test]
fn reading_in_the_other_order_swaps_the_bytes() {
    let image = sample().to_bytes(ByteOrder::Little);
    let swapped = MmcIocCmd::from_bytes(&image, ByteOrder::Big);
    assert_eq!(swapped.opcode, sample().opcode.swap_bytes());
    assert_eq!(swapped.response[2], sample().response[2].swap_bytes());
    assert_eq!(swapped.data_ptr, sample().data_ptr.swap_bytes());
}

#[test]
fn a_response_written_by_the_driver_is_read_back() {
    let cmd = MmcIocCmd::new(13, 0, 0x15).set_timeout(1500, 0);
    let mut image = cmd.to_bytes(ByteOrder::Little);
    image[OFFSET_RESPONSE] = 0x00;
    image[OFFSET_RESPONSE + 1] = 0x09;
    let after = MmcIocCmd::from_bytes(&image, ByteOrder::Little);
    assert_eq!(after.response, [0x0000_0900, 0, 0, 0]);
    assert_eq!(after, MmcIocCmd { response: [0x900, 0, 0, 0], ..cmd });
}

#[test]
fn padding_bytes_are_not_read() {
    let mut image = sample().to_bytes(ByteOrder::Little);
    for byte in image[60..64].iter_mut() {
        *byte = 0xff;
    }
    assert_eq!(MmcIocCmd::from_bytes(&image, ByteOrder::Little), sample());
}

#[test]
fn return_code_zero_is_success_and_anything_else_a_rejection() {
    let cmd = sample();
    assert_eq!(completion(0, 13, cmd), Event::Executed(cmd));
    assert_eq!(completion(-1, 13, cmd), Event::Rejected(13));
    assert_eq!(completion(1, 5, cmd), Event::Rejected(5));
    assert_eq!(completion(i32::MIN, 1, cmd), Event::Rejected(1));
}

#[test]
fn diagnostic_levels() {
    assert!(!traces_commands(0));
    assert!(!traces_responses(0));
    assert!(traces_commands(1));
    assert!(!traces_responses(1));
    assert!(traces_commands(2));
    assert!(traces_responses(2));
    assert!(traces_commands(255));
    assert!(traces_responses(255));
}

#[test]
fn request_code_names_class_operation_and_size() {
    let code = mmc_ioc_cmd_request();
    assert_eq!(code, 0xc048_b300);
    assert_eq!(code & 0xff, 0);
    assert_eq!((code >> 8) & 0xff, 179);
    assert_eq!((code >> 16) & 0x3fff, 72);
    assert_eq!(code >> 30, 3);
}
