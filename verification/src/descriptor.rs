//! The command descriptor: one request to the card together with the room
//! for its response, and the byte image in which the block-device driver
//! expects it.
//!
//! The image is 72 bytes long and 8-byte aligned. Fourteen 32-bit words come
//! first, in the order of the fields of [`MmcIocCmd`]; a reserved word and
//! four bytes of padding follow, so that the 64-bit data pointer starts at
//! offset 64. Every multi-byte field is stored in the byte order of the host.

use vstd::prelude::*;

verus! {

/// Length in bytes of a descriptor's image.
pub const DESCRIPTOR_SIZE: usize = 72;

/// Alignment in bytes that the driver expects of a descriptor's image.
pub const DESCRIPTOR_ALIGN: usize = 8;

pub const OFFSET_WRITE_FLAG: usize = 0;

pub const OFFSET_OPCODE: usize = 4;

pub const OFFSET_ARG: usize = 8;

pub const OFFSET_RESPONSE: usize = 12;

pub const OFFSET_FLAGS: usize = 28;

pub const OFFSET_BLKSZ: usize = 32;

pub const OFFSET_BLOCKS: usize = 36;

pub const OFFSET_POSTSLEEP_MIN_US: usize = 40;

pub const OFFSET_POSTSLEEP_MAX_US: usize = 44;

pub const OFFSET_DATA_TIMEOUT_NS: usize = 48;

pub const OFFSET_CMD_TIMEOUT_MS: usize = 52;

pub const OFFSET_PAD: usize = 56;

pub const OFFSET_DATA_PTR: usize = 64;

/// Order in which the bytes of a multi-byte field are stored.
#[derive(Clone, Copy, Debug, PartialEq, Eq, Structural)]
pub enum ByteOrder {
    /// Least significant byte first.
    Little,
    /// Most significant byte first.
    Big,
}

/// One command for the card and the place for its response.
#[derive(Clone, Copy, Debug, PartialEq, Eq)]
pub struct MmcIocCmd {
    /// Direction of the data phase: 0 reads from the card.
    pub write_flag: u32,
    /// Protocol command number.
    pub opcode: u32,
    /// Command-specific argument.
    pub arg: u32,
    /// The card's reply; a short response fills word 0 only.
    pub response: [u32; 4],
    /// Response-type bits and command class.
    pub flags: u32,
    /// Bytes per data block; 0 without a data phase.
    pub blksz: u32,
    /// Number of data blocks; 0 without a data phase.
    pub blocks: u32,
    /// Shortest settle delay after the command, in microseconds.
    pub postsleep_min_us: u32,
    /// Longest settle delay after the command, in microseconds.
    pub postsleep_max_us: u32,
    /// Data timeout in nanoseconds; 0 leaves it to the driver.
    pub data_timeout_ns: u32,
    /// Command timeout in milliseconds; 0 leaves it to the driver.
    pub cmd_timeout_ms: u32,
    /// Reserved word in front of the data pointer.
    pub __pad: u32,
    /// Address of the data buffer, or 0.
    pub data_ptr: u64,
}

/// The four bytes of a 32-bit word, in the given order.
pub open spec fn word_image(value: u32, order: ByteOrder) -> Seq<u8> {
    let b0 = (value & 0xff) as u8;
    let b1 = ((value >> 8) & 0xff) as u8;
    let b2 = ((value >> 16) & 0xff) as u8;
    let b3 = ((value >> 24) & 0xff) as u8;
    match order {
        ByteOrder::Little => seq![b0, b1, b2, b3],
        ByteOrder::Big => seq![b3, b2, b1, b0],
    }
}

/// The word that four bytes stand for, in the given order.
pub open spec fn word_value(bytes: Seq<u8>, order: ByteOrder) -> u32 {
    let (b0, b1, b2, b3) = match order {
        ByteOrder::Little => (bytes[0], bytes[1], bytes[2], bytes[3]),
        ByteOrder::Big => (bytes[3], bytes[2], bytes[1], bytes[0]),
    };
    (b0 as u32) | (b1 as u32) << 8 | (b2 as u32) << 16 | (b3 as u32) << 24
}

/// The less significant half of a 64-bit value.
pub open spec fn low_word(value: u64) -> u32 {
    (value & 0xffff_ffff) as u32
}

/// The more significant half of a 64-bit value.
pub open spec fn high_word(value: u64) -> u32 {
    (value >> 32) as u32
}

/// The eight bytes of a 64-bit value, in the given order.
pub open spec fn quad_image(value: u64, order: ByteOrder) -> Seq<u8> {
    match order {
        ByteOrder::Little => word_image(low_word(value), order) + word_image(
            high_word(value),
            order,
        ),
        ByteOrder::Big => word_image(high_word(value), order) + word_image(
            low_word(value),
            order,
        ),
    }
}

/// The 64-bit value that eight bytes stand for, in the given order.
pub open spec fn quad_value(bytes: Seq<u8>, order: ByteOrder) -> u64 {
    let first = word_value(bytes.subrange(0, 4), order);
    let second = word_value(bytes.subrange(4, 8), order);
    match order {
        ByteOrder::Little => (first as u64) | (second as u64) << 32,
        ByteOrder::Big => (second as u64) | (first as u64) << 32,
    }
}

/// The word stored at `offset` in `bytes`.
pub open spec fn word_at(bytes: Seq<u8>, offset: int, order: ByteOrder) -> u32 {
    word_value(bytes.subrange(offset, offset + 4), order)
}

/// The 64-bit value stored at `offset` in `bytes`.
pub open spec fn quad_at(bytes: Seq<u8>, offset: int, order: ByteOrder) -> u64 {
    quad_value(bytes.subrange(offset, offset + 8), order)
}

/// Reading back the bytes of a word gives the word.
pub proof fn lemma_word_round_trip(value: u32, order: ByteOrder)
    ensures
        word_image(value, order).len() == 4,
        word_value(word_image(value, order), order) == value,
{
    let b0 = value & 0xff;
    let b1 = (value >> 8) & 0xff;
    let b2 = (value >> 16) & 0xff;
    let b3 = (value >> 24) & 0xff;
    assert(b0 < 256 && b1 < 256 && b2 < 256 && b3 < 256 && value == b0 | b1 << 8 | b2 << 16 | b3
        << 24) by (bit_vector)
        requires
            b0 == value & 0xff,
            b1 == (value >> 8) & 0xff,
            b2 == (value >> 16) & 0xff,
            b3 == (value >> 24) & 0xff,
    ;
}

/// Reading back the bytes of a 64-bit value gives the value.
pub proof fn lemma_quad_round_trip(value: u64, order: ByteOrder)
    ensures
        quad_image(value, order).len() == 8,
        quad_value(quad_image(value, order), order) == value,
{
    let low = low_word(value);
    let high = high_word(value);
    lemma_word_round_trip(low, order);
    lemma_word_round_trip(high, order);
    let image = quad_image(value, order);
    match order {
        ByteOrder::Little => {
            assert(image.subrange(0, 4) =~= word_image(low, order));
            assert(image.subrange(4, 8) =~= word_image(high, order));
        },
        ByteOrder::Big => {
            assert(image.subrange(0, 4) =~= word_image(high, order));
            assert(image.subrange(4, 8) =~= word_image(low, order));
        },
    }
    let l = value & 0xffff_ffff;
    let h = value >> 32;
    assert(l <= 0xffff_ffff && h <= 0xffff_ffff && value == l | h << 32) by (bit_vector)
        requires
            l == value & 0xffff_ffff,
            h == value >> 32,
    ;
}

/// The bytes of a sequence of words: the image of the first word, then that
/// of the second, and so on.
pub open spec fn words_image(words: Seq<u32>, order: ByteOrder) -> Seq<u8>
    decreases words.len(),
{
    if words.len() == 0 {
        Seq::empty()
    } else {
        words_image(words.drop_last(), order) + word_image(words.last(), order)
    }
}

/// Byte `i` of the image of a sequence of words is byte `i % 4` of the image
/// of word `i / 4`, and there are four bytes to every word.
pub proof fn lemma_words_image(words: Seq<u32>, order: ByteOrder)
    ensures
        words_image(words, order).len() == 4 * words.len(),
        forall|i: int|
            0 <= i < 4 * words.len() ==> #[trigger] words_image(words, order)[i] == word_image(
                words[i / 4],
                order,
            )[i % 4],
    decreases words.len(),
{
    if words.len() > 0 {
        let front = words.drop_last();
        lemma_words_image(front, order);
        assert forall|i: int| 0 <= i < 4 * words.len() implies #[trigger] words_image(
            words,
            order,
        )[i] == word_image(words[i / 4], order)[i % 4] by {
            if i < 4 * front.len() {
                assert(front[i / 4] == words[i / 4]);
            } else {
                assert(i / 4 == words.len() - 1);
                assert(i % 4 == i - 4 * front.len());
            }
        }
    }
}

impl MmcIocCmd {
    /// A descriptor with every field zero but the three given.
    pub open spec fn spec_new(opcode: u32, arg: u32, flags: u32) -> MmcIocCmd {
        MmcIocCmd {
            write_flag: 0,
            opcode,
            arg,
            response: [0u32, 0u32, 0u32, 0u32],
            flags,
            blksz: 0,
            blocks: 0,
            postsleep_min_us: 0,
            postsleep_max_us: 0,
            data_timeout_ns: 0,
            cmd_timeout_ms: 0,
            __pad: 0,
            data_ptr: 0,
        }
    }

    /// The descriptor with its two timeouts replaced.
    pub open spec fn spec_set_timeout(self, cmd_timeout_ms: u32, data_timeout_ns: u32) -> MmcIocCmd {
        MmcIocCmd { cmd_timeout_ms, data_timeout_ns, ..self }
    }

    /// The descriptor with a data phase of `blocks` blocks of `blksz` bytes
    /// each, to or from the buffer at `data_ptr`.
    pub open spec fn spec_set_data(self, data_ptr: u64, blocks: u32, blksz: u32) -> MmcIocCmd {
        MmcIocCmd { data_ptr, blocks, blksz, ..self }
    }

    /// Builds a descriptor for one command. All other fields are zero: a
    /// read, no data phase, no settle delay, the driver's own timeouts, an
    /// empty response.
    #[verifier::when_used_as_spec(spec_new)]
    pub fn new(opcode: u32, arg: u32, flags: u32) -> (cmd: MmcIocCmd)
        ensures
            cmd == MmcIocCmd::spec_new(opcode, arg, flags),
            cmd.opcode == opcode,
            cmd.arg == arg,
            cmd.flags == flags,
            cmd.is_blank_but_command(),
    {
        let cmd = MmcIocCmd {
            write_flag: 0,
            opcode,
            arg,
            response: [0u32; 4],
            flags,
            blksz: 0,
            blocks: 0,
            postsleep_min_us: 0,
            postsleep_max_us: 0,
            data_timeout_ns: 0,
            cmd_timeout_ms: 0,
            __pad: 0,
            data_ptr: 0,
        };
        assert(cmd.response =~= MmcIocCmd::spec_new(opcode, arg, flags).response);
        cmd
    }

    /// Sets the command timeout, in milliseconds, and the data timeout, in
    /// nanoseconds. Zero leaves a timeout to the driver. Nothing else
    /// changes.
    #[verifier::when_used_as_spec(spec_set_timeout)]
    pub fn set_timeout(self, cmd_timeout_ms: u32, data_timeout_ns: u32) -> (cmd: MmcIocCmd)
        ensures
            cmd == self.spec_set_timeout(cmd_timeout_ms, data_timeout_ns),
    {
        MmcIocCmd { cmd_timeout_ms, data_timeout_ns, ..self }
    }

    /// Attaches a data phase: `blocks` blocks of `blksz` bytes each, to or
    /// from the buffer at `data_ptr`. Nothing else changes.
    #[verifier::when_used_as_spec(spec_set_data)]
    pub fn set_data(self, data_ptr: u64, blocks: u32, blksz: u32) -> (cmd: MmcIocCmd)
        ensures
            cmd == self.spec_set_data(data_ptr, blocks, blksz),
    {
        MmcIocCmd { data_ptr, blocks, blksz, ..self }
    }

    /// Every field other than opcode, argument and flags is zero.
    pub open spec fn is_blank_but_command(self) -> bool {
        &&& self.write_flag == 0
        &&& forall|k: int| 0 <= k < 4 ==> self.response[k] == 0
        &&& self.blksz == 0
        &&& self.blocks == 0
        &&& self.postsleep_min_us == 0
        &&& self.postsleep_max_us == 0
        &&& self.data_timeout_ns == 0
        &&& self.cmd_timeout_ms == 0
        &&& self.__pad == 0
        &&& self.data_ptr == 0
    }

    /// The eighteen 32-bit words of the image, in the order in which they
    /// are stored: the fourteen words of the command and its response, the
    /// reserved word, a word of padding, and the two halves of the data
    /// pointer, of which the less significant comes first on a
    /// little-endian host and last on a big-endian one.
    pub open spec fn words(self, order: ByteOrder) -> Seq<u32> {
        seq![
            self.write_flag,
            self.opcode,
            self.arg,
            self.response[0],
            self.response[1],
            self.response[2],
            self.response[3],
            self.flags,
            self.blksz,
            self.blocks,
            self.postsleep_min_us,
            self.postsleep_max_us,
            self.data_timeout_ns,
            self.cmd_timeout_ms,
            self.__pad,
            0u32,
            match order {
                ByteOrder::Little => low_word(self.data_ptr),
                ByteOrder::Big => high_word(self.data_ptr),
            },
            match order {
                ByteOrder::Little => high_word(self.data_ptr),
                ByteOrder::Big => low_word(self.data_ptr),
            },
        ]
    }

    /// The 72 bytes in which the driver expects this descriptor: its words,
    /// one after another, each in the given byte order.
    pub open spec fn image(self, order: ByteOrder) -> Seq<u8> {
        words_image(self.words(order), order)
    }

    /// The descriptor's fields are what `bytes` holds at their offsets. The
    /// four bytes of padding in front of the data pointer are not read.
    pub open spec fn is_read_from(self, bytes: Seq<u8>, order: ByteOrder) -> bool {
        &&& self.write_flag == word_at(bytes, OFFSET_WRITE_FLAG as int, order)
        &&& self.opcode == word_at(bytes, OFFSET_OPCODE as int, order)
        &&& self.arg == word_at(bytes, OFFSET_ARG as int, order)
        &&& forall|k: int|
            0 <= k < 4 ==> self.response[k] == word_at(bytes, OFFSET_RESPONSE + 4 * k, order)
        &&& self.flags == word_at(bytes, OFFSET_FLAGS as int, order)
        &&& self.blksz == word_at(bytes, OFFSET_BLKSZ as int, order)
        &&& self.blocks == word_at(bytes, OFFSET_BLOCKS as int, order)
        &&& self.postsleep_min_us == word_at(bytes, OFFSET_POSTSLEEP_MIN_US as int, order)
        &&& self.postsleep_max_us == word_at(bytes, OFFSET_POSTSLEEP_MAX_US as int, order)
        &&& self.data_timeout_ns == word_at(bytes, OFFSET_DATA_TIMEOUT_NS as int, order)
        &&& self.cmd_timeout_ms == word_at(bytes, OFFSET_CMD_TIMEOUT_MS as int, order)
        &&& self.__pad == word_at(bytes, OFFSET_PAD as int, order)
        &&& self.data_ptr == quad_at(bytes, OFFSET_DATA_PTR as int, order)
    }
}

/// Stores a word at `offset`, leaving every other byte as it was.
fn put_word(out: &mut [u8; 72], offset: usize, value: u32, order: ByteOrder)
    requires
        offset + 4 <= 72,
    ensures
        forall|i: int|
            0 <= i < 72 && !(offset <= i < offset + 4) ==> final(out)[i] == old(out)[i],
        forall|k: int| 0 <= k < 4 ==> final(out)[offset + k] == word_image(value, order)[k],
{
    let b0 = (value & 0xff) as u8;
    let b1 = ((value >> 8) & 0xff) as u8;
    let b2 = ((value >> 16) & 0xff) as u8;
    let b3 = ((value >> 24) & 0xff) as u8;
    match order {
        ByteOrder::Little => {
            out[offset] = b0;
            out[offset + 1] = b1;
            out[offset + 2] = b2;
            out[offset + 3] = b3;
        },
        ByteOrder::Big => {
            out[offset] = b3;
            out[offset + 1] = b2;
            out[offset + 2] = b1;
            out[offset + 3] = b0;
        },
    }
}

/// Reads the word stored at `offset`.
fn get_word(bytes: &[u8; 72], offset: usize, order: ByteOrder) -> (value: u32)
    requires
        offset + 4 <= 72,
    ensures
        value == word_at(bytes@, offset as int, order),
{
    let ghost part = bytes@.subrange(offset as int, offset + 4);
    assert(part[0] == bytes[offset as int] && part[1] == bytes[offset + 1] && part[2]
        == bytes[offset + 2] && part[3] == bytes[offset + 3]);
    let (b0, b1, b2, b3) = match order {
        ByteOrder::Little => (
            bytes[offset],
            bytes[offset + 1],
            bytes[offset + 2],
            bytes[offset + 3],
        ),
        ByteOrder::Big => (bytes[offset + 3], bytes[offset + 2], bytes[offset + 1], bytes[offset]),
    };
    (b0 as u32) | (b1 as u32) << 8 | (b2 as u32) << 16 | (b3 as u32) << 24
}

impl MmcIocCmd {
    /// Lays the descriptor out as the driver expects it.
    pub fn to_bytes(&self, order: ByteOrder) -> (out: [u8; 72])
        ensures
            out@ == self.image(order),
            out@.len() == DESCRIPTOR_SIZE,
    {
        let low = (self.data_ptr & 0xffff_ffff) as u32;
        let high = (self.data_ptr >> 32) as u32;
        let (first, second) = match order {
            ByteOrder::Little => (low, high),
            ByteOrder::Big => (high, low),
        };
        let words: [u32; 18] = [
            self.write_flag,
            self.opcode,
            self.arg,
            self.response[0],
            self.response[1],
            self.response[2],
            self.response[3],
            self.flags,
            self.blksz,
            self.blocks,
            self.postsleep_min_us,
            self.postsleep_max_us,
            self.data_timeout_ns,
            self.cmd_timeout_ms,
            self.__pad,
            0,
            first,
            second,
        ];
        assert(words@ =~= self.words(order));
        let mut out = [0u8; 72];
        let mut k: usize = 0;
        assert(words@.subrange(0, 0) =~= Seq::<u32>::empty());
        assert(out@.subrange(0, 0) =~= Seq::<u8>::empty());
        while k < 18
            invariant
                k <= 18,
                out@.subrange(0, 4 * k) == words_image(words@.subrange(0, k as int), order),
            decreases 18 - k,
        {
            let ghost before = out@;
            put_word(&mut out, 4 * k, words[k], order);
            proof {
                let taken = words@.subrange(0, k + 1);
                assert(taken.drop_last() =~= words@.subrange(0, k as int));
                assert(taken.last() == words@[k as int]);
                assert(out@.subrange(0, 4 * k + 4) =~= before.subrange(0, 4 * k) + word_image(
                    words@[k as int],
                    order,
                ));
            }
            k += 1;
        }
        assert(words@.subrange(0, 18) =~= words@);
        assert(out@.subrange(0, 72) =~= out@);
        out
    }

    /// Reads a descriptor back from its image, as the driver left it.
    pub fn from_bytes(bytes: &[u8; 72], order: ByteOrder) -> (cmd: MmcIocCmd)
        ensures
            cmd.is_read_from(bytes@, order),
    {
        let first = get_word(bytes, OFFSET_DATA_PTR, order);
        let second = get_word(bytes, OFFSET_DATA_PTR + 4, order);
        let data_ptr = match order {
            ByteOrder::Little => (first as u64) | (second as u64) << 32,
            ByteOrder::Big => (second as u64) | (first as u64) << 32,
        };
        proof {
            let tail = bytes@.subrange(OFFSET_DATA_PTR as int, OFFSET_DATA_PTR + 8);
            assert(tail.subrange(0, 4) =~= bytes@.subrange(
                OFFSET_DATA_PTR as int,
                OFFSET_DATA_PTR + 4,
            ));
            assert(tail.subrange(4, 8) =~= bytes@.subrange(
                OFFSET_DATA_PTR + 4,
                OFFSET_DATA_PTR + 8,
            ));
        }
        MmcIocCmd {
            write_flag: get_word(bytes, OFFSET_WRITE_FLAG, order),
            opcode: get_word(bytes, OFFSET_OPCODE, order),
            arg: get_word(bytes, OFFSET_ARG, order),
            response: [
                get_word(bytes, OFFSET_RESPONSE, order),
                get_word(bytes, OFFSET_RESPONSE + 4, order),
                get_word(bytes, OFFSET_RESPONSE + 8, order),
                get_word(bytes, OFFSET_RESPONSE + 12, order),
            ],
            flags: get_word(bytes, OFFSET_FLAGS, order),
            blksz: get_word(bytes, OFFSET_BLKSZ, order),
            blocks: get_word(bytes, OFFSET_BLOCKS, order),
            postsleep_min_us: get_word(bytes, OFFSET_POSTSLEEP_MIN_US, order),
            postsleep_max_us: get_word(bytes, OFFSET_POSTSLEEP_MAX_US, order),
            data_timeout_ns: get_word(bytes, OFFSET_DATA_TIMEOUT_NS, order),
            cmd_timeout_ms: get_word(bytes, OFFSET_CMD_TIMEOUT_MS, order),
            __pad: get_word(bytes, OFFSET_PAD, order),
            data_ptr,
        }
    }
}

/// The four bytes of word `k` of an image.
spec fn word_slot(image: Seq<u8>, k: int) -> Seq<u8> {
    image.subrange(4 * k, 4 * k + 4)
}

/// The layout of the image: its length, where each field lies, and that each
/// field is aligned to its own size.
///
/// The image is 72 bytes long whatever the fields hold. The alignment that
/// the driver expects, 8, is the size of the widest field, and it divides
/// the length. Every 32-bit field lies at a multiple of 4, the data pointer
/// at a multiple of 8. The four bytes between the reserved word and the data
/// pointer are zero.
pub proof fn lemma_image_layout(cmd: MmcIocCmd, order: ByteOrder)
    ensures
        cmd.image(order).len() == DESCRIPTOR_SIZE,
        DESCRIPTOR_SIZE == 72,
        DESCRIPTOR_ALIGN == 8,
        DESCRIPTOR_SIZE % DESCRIPTOR_ALIGN == 0,
        OFFSET_WRITE_FLAG % 4 == 0 && OFFSET_OPCODE % 4 == 0 && OFFSET_ARG % 4 == 0
            && OFFSET_RESPONSE % 4 == 0 && OFFSET_FLAGS % 4 == 0 && OFFSET_BLKSZ % 4 == 0
            && OFFSET_BLOCKS % 4 == 0 && OFFSET_POSTSLEEP_MIN_US % 4 == 0
            && OFFSET_POSTSLEEP_MAX_US % 4 == 0 && OFFSET_DATA_TIMEOUT_NS % 4 == 0
            && OFFSET_CMD_TIMEOUT_MS % 4 == 0 && OFFSET_PAD % 4 == 0,
        OFFSET_DATA_PTR % DESCRIPTOR_ALIGN == 0,
        OFFSET_DATA_PTR + 8 == DESCRIPTOR_SIZE,
        cmd.image(order).subrange(OFFSET_WRITE_FLAG as int, OFFSET_WRITE_FLAG + 4) == word_image(
            cmd.write_flag,
            order,
        ),
        cmd.image(order).subrange(OFFSET_OPCODE as int, OFFSET_OPCODE + 4) == word_image(
            cmd.opcode,
            order,
        ),
        cmd.image(order).subrange(OFFSET_ARG as int, OFFSET_ARG + 4) == word_image(
            cmd.arg,
            order,
        ),
        forall|k: int|
            0 <= k < 4 ==> #[trigger] cmd.image(order).subrange(
                OFFSET_RESPONSE + 4 * k,
                OFFSET_RESPONSE + 4 * k + 4,
            ) == word_image(cmd.response[k], order),
        cmd.image(order).subrange(OFFSET_FLAGS as int, OFFSET_FLAGS + 4) == word_image(
            cmd.flags,
            order,
        ),
        cmd.image(order).subrange(OFFSET_BLKSZ as int, OFFSET_BLKSZ + 4) == word_image(
            cmd.blksz,
            order,
        ),
        cmd.image(order).subrange(OFFSET_BLOCKS as int, OFFSET_BLOCKS + 4) == word_image(
            cmd.blocks,
            order,
        ),
        cmd.image(order).subrange(OFFSET_POSTSLEEP_MIN_US as int, OFFSET_POSTSLEEP_MIN_US + 4)
            == word_image(cmd.postsleep_min_us, order),
        cmd.image(order).subrange(OFFSET_POSTSLEEP_MAX_US as int, OFFSET_POSTSLEEP_MAX_US + 4)
            == word_image(cmd.postsleep_max_us, order),
        cmd.image(order).subrange(OFFSET_DATA_TIMEOUT_NS as int, OFFSET_DATA_TIMEOUT_NS + 4)
            == word_image(cmd.data_timeout_ns, order),
        cmd.image(order).subrange(OFFSET_CMD_TIMEOUT_MS as int, OFFSET_CMD_TIMEOUT_MS + 4)
            == word_image(cmd.cmd_timeout_ms, order),
        cmd.image(order).subrange(OFFSET_PAD as int, OFFSET_PAD + 4) == word_image(
            cmd.__pad,
            order,
        ),
        cmd.image(order).subrange(OFFSET_PAD + 4, OFFSET_DATA_PTR as int) == seq![
            0u8,
            0u8,
            0u8,
            0u8,
        ],
        cmd.image(order).subrange(OFFSET_DATA_PTR as int, OFFSET_DATA_PTR + 8) == quad_image(
            cmd.data_ptr,
            order,
        ),
{
    let image = cmd.image(order);
    let words = cmd.words(order);
    lemma_words_image(words, order);
    assert forall|k: int| 0 <= k < 18 implies #[trigger] word_slot(image, k) == word_image(
        words[k],
        order,
    ) by {
        let part = word_slot(image, k);
        assert forall|i: int| 0 <= i < 4 implies part[i] == word_image(words[k], order)[i] by {
            assert(part[i] == image[4 * k + i]);
            assert((4 * k + i) / 4 == k);
            assert((4 * k + i) % 4 == i);
        }
        assert(part =~= word_image(words[k], order));
    }
    assert(word_slot(image, 0) == word_image(words[0], order));
    assert(word_slot(image, 1) == word_image(words[1], order));
    assert(word_slot(image, 2) == word_image(words[2], order));
    assert(word_slot(image, 3) == word_image(words[3], order));
    assert(word_slot(image, 4) == word_image(words[4], order));
    assert(word_slot(image, 5) == word_image(words[5], order));
    assert(word_slot(image, 6) == word_image(words[6], order));
    assert(word_slot(image, 7) == word_image(words[7], order));
    assert(word_slot(image, 8) == word_image(words[8], order));
    assert(word_slot(image, 9) == word_image(words[9], order));
    assert(word_slot(image, 10) == word_image(words[10], order));
    assert(word_slot(image, 11) == word_image(words[11], order));
    assert(word_slot(image, 12) == word_image(words[12], order));
    assert(word_slot(image, 13) == word_image(words[13], order));
    assert(word_slot(image, 14) == word_image(words[14], order));
    assert(word_slot(image, 15) == word_image(words[15], order));
    assert(word_slot(image, 16) == word_image(words[16], order));
    assert(word_slot(image, 17) == word_image(words[17], order));
    assert(word_image(0u32, order) =~= seq![0u8, 0u8, 0u8, 0u8]) by {
        assert(0u32 & 0xff == 0 && (0u32 >> 8) & 0xff == 0 && (0u32 >> 16) & 0xff == 0 && (0u32
            >> 24) & 0xff == 0) by (bit_vector);
    }
    assert(image.subrange(64, 72) =~= image.subrange(64, 68) + image.subrange(68, 72));
    assert forall|k: int| 0 <= k < 4 implies #[trigger] image.subrange(
        OFFSET_RESPONSE + 4 * k,
        OFFSET_RESPONSE + 4 * k + 4,
    ) == word_image(cmd.response[k], order) by {
        assert(word_slot(image, 3 + k) == word_image(words[3 + k], order));
    }
}

/// Where four bytes of `bytes` are the image of a word, the word is read
/// back from there.
proof fn lemma_word_stored(bytes: Seq<u8>, offset: int, value: u32, order: ByteOrder)
    requires
        bytes.subrange(offset, offset + 4) == word_image(value, order),
    ensures
        word_at(bytes, offset, order) == value,
{
    lemma_word_round_trip(value, order);
}

/// Where eight bytes of `bytes` are the image of a 64-bit value, the value
/// is read back from there.
proof fn lemma_quad_stored(bytes: Seq<u8>, offset: int, value: u64, order: ByteOrder)
    requires
        bytes.subrange(offset, offset + 8) == quad_image(value, order),
    ensures
        quad_at(bytes, offset, order) == value,
{
    lemma_quad_round_trip(value, order);
}

/// A descriptor is read back from its own image.
proof fn lemma_image_reads_back(cmd: MmcIocCmd, order: ByteOrder)
    ensures
        cmd.is_read_from(cmd.image(order), order),
{
    let image = cmd.image(order);
    lemma_image_layout(cmd, order);
    lemma_word_stored(image, OFFSET_WRITE_FLAG as int, cmd.write_flag, order);
    lemma_word_stored(image, OFFSET_OPCODE as int, cmd.opcode, order);
    lemma_word_stored(image, OFFSET_ARG as int, cmd.arg, order);
    lemma_word_stored(image, OFFSET_FLAGS as int, cmd.flags, order);
    lemma_word_stored(image, OFFSET_BLKSZ as int, cmd.blksz, order);
    lemma_word_stored(image, OFFSET_BLOCKS as int, cmd.blocks, order);
    lemma_word_stored(image, OFFSET_POSTSLEEP_MIN_US as int, cmd.postsleep_min_us, order);
    lemma_word_stored(image, OFFSET_POSTSLEEP_MAX_US as int, cmd.postsleep_max_us, order);
    lemma_word_stored(image, OFFSET_DATA_TIMEOUT_NS as int, cmd.data_timeout_ns, order);
    lemma_word_stored(image, OFFSET_CMD_TIMEOUT_MS as int, cmd.cmd_timeout_ms, order);
    lemma_word_stored(image, OFFSET_PAD as int, cmd.__pad, order);
    lemma_quad_stored(image, OFFSET_DATA_PTR as int, cmd.data_ptr, order);
    assert forall|k: int| 0 <= k < 4 implies cmd.response[k] == word_at(
        image,
        OFFSET_RESPONSE + 4 * k,
        order,
    ) by {
        assert(image.subrange(OFFSET_RESPONSE + 4 * k, OFFSET_RESPONSE + 4 * k + 4) == word_image(
            cmd.response[k],
            order,
        ));
        lemma_word_stored(image, OFFSET_RESPONSE + 4 * k, cmd.response[k], order);
    }
}

/// Two descriptors that are read from the same bytes are equal.
proof fn lemma_read_is_unique(bytes: Seq<u8>, order: ByteOrder, one: MmcIocCmd, other: MmcIocCmd)
    requires
        one.is_read_from(bytes, order),
        other.is_read_from(bytes, order),
    ensures
        one == other,
{
    assert(one.response =~= other.response);
}

/// A descriptor is read back from its own image, and no other descriptor is:
/// the image loses nothing.
pub proof fn lemma_image_round_trip(cmd: MmcIocCmd, order: ByteOrder, other: MmcIocCmd)
    ensures
        cmd.is_read_from(cmd.image(order), order),
        other.is_read_from(cmd.image(order), order) ==> other == cmd,
{
    lemma_image_reads_back(cmd, order);
    if other.is_read_from(cmd.image(order), order) {
        lemma_read_is_unique(cmd.image(order), order, cmd, other);
    }
}

} // verus!
