//! Protocol numbers shared by every module: opcodes, response-flag bits,
//! command classes, R1 card states and the polling budget.

use vstd::prelude::*;

verus! {

// eMMC commands
/// CMD8, SEND_EXT_CSD: transfers the 512-byte Extended CSD register.
pub const MMC_SEND_EXT_CSD: u32 = 8;

/// CMD13, SEND_STATUS: returns the card's R1 status word.
pub const MMC_SEND_STATUS: u32 = 13;

// Response types
pub const MMC_RSP_NONE: u32 = 0;

/// A response is expected.
pub const MMC_RSP_PRESENT: u32 = 1 << 0;

/// The response is the long, 136-bit form.
pub const MMC_RSP_136: u32 = 1 << 1;

/// The response carries a CRC that must be checked.
pub const MMC_RSP_CRC: u32 = 1 << 2;

/// The card may signal busy after the response.
pub const MMC_RSP_BUSY: u32 = 1 << 3;

/// The response echoes the opcode, which must be checked.
pub const MMC_RSP_OPCODE: u32 = 1 << 4;

// Command types, held in bits 5 and 6 of the flags
/// Addressed command without a data phase.
pub const MMC_CMD_AC: u32 = 0 << 5;

/// Addressed command with a data phase.
pub const MMC_CMD_ADTC: u32 = 1 << 5;

/// Broadcast command.
pub const MMC_CMD_BC: u32 = 2 << 5;

// Native responses
pub const MMC_RSP_R1: u32 = MMC_RSP_PRESENT | MMC_RSP_CRC | MMC_RSP_OPCODE;

pub const MMC_RSP_R1B: u32 = MMC_RSP_PRESENT | MMC_RSP_CRC | MMC_RSP_OPCODE | MMC_RSP_BUSY;

// R1 card states, as found in bits 12:9 of the status word
pub const R1_STATE_IDLE: u32 = 0;

pub const R1_STATE_READY: u32 = 1;

pub const R1_STATE_IDENT: u32 = 2;

pub const R1_STATE_STBY: u32 = 3;

pub const R1_STATE_TRAN: u32 = 4;

pub const R1_STATE_DATA: u32 = 5;

pub const R1_STATE_RCV: u32 = 6;

pub const R1_STATE_PRG: u32 = 7;

pub const R1_STATE_DIS: u32 = 8;

/// Size in bytes of one data block, and of the Extended CSD register.
pub const BLK_SZ: u32 = 512;

/// Argument of the status command that asks the card for its own status.
pub const DEV_STATUS_ARG_CMD13: u32 = 0;

/// Command timeout, in milliseconds, given to every status command.
pub const STATUS_CMD_TIMEOUT_MS: u32 = 1500;

/// Number of status commands after which a busy card is given up.
pub const POLL_ATTEMPTS: u32 = 50;

/// Pause, in milliseconds, that follows every status check that found the
/// card busy.
pub const POLL_DELAY_MS: u32 = 20;

/// Major number of the MMC block device class.
pub const MMC_BLOCK_MAJOR: u32 = 179;

/// Number of the control operation, within that class, that carries one
/// command descriptor.
pub const MMC_IOC_CMD: u32 = 0;

/// The numeric values of the composite flag words.
pub proof fn lemma_flag_values()
    ensures
        MMC_RSP_PRESENT == 0x01,
        MMC_RSP_136 == 0x02,
        MMC_RSP_CRC == 0x04,
        MMC_RSP_BUSY == 0x08,
        MMC_RSP_OPCODE == 0x10,
        MMC_CMD_AC == 0x00,
        MMC_CMD_ADTC == 0x20,
        MMC_CMD_BC == 0x40,
        MMC_RSP_R1 == 0x15,
        MMC_RSP_R1B == 0x1d,
        MMC_RSP_R1 | MMC_CMD_AC == 0x15,
        MMC_RSP_R1 | MMC_CMD_ADTC == 0x35,
{
    assert(MMC_RSP_PRESENT == 0x01 && MMC_RSP_136 == 0x02 && MMC_RSP_CRC == 0x04 && MMC_RSP_BUSY
        == 0x08 && MMC_RSP_OPCODE == 0x10 && MMC_CMD_AC == 0x00 && MMC_CMD_ADTC == 0x20
        && MMC_CMD_BC == 0x40 && MMC_RSP_R1 == 0x15 && MMC_RSP_R1B == 0x1d && MMC_RSP_R1
        | MMC_CMD_AC == 0x15 && MMC_RSP_R1 | MMC_CMD_ADTC == 0x35) by (bit_vector);
}

} // verus!
