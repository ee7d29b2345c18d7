//! Decoding of the R1 status word that the card returns in the first
//! response word of a command descriptor.
//!
//! Only two fields matter here: bit 8, "ready for data", and bits 12:9, the
//! card's current state.

use vstd::prelude::*;
use crate::constants::R1_STATE_PRG;

verus! {

/// Bit 8 of the status word: the card can accept data.
pub open spec fn ready_for_data(word: u32) -> bool {
    (word >> 8) & 1 == 1
}

/// Bits 12:9 of the status word: the card's current state.
pub open spec fn current_state(word: u32) -> u32 {
    (word >> 9) & 0xF
}

/// The card can take the next command: it is ready for data and is not
/// programming.
pub open spec fn device_ready(word: u32) -> bool {
    ready_for_data(word) && current_state(word) != R1_STATE_PRG
}

/// The two fields read as arithmetic on the word's value: the ready flag is
/// the binary digit of weight 256, the state the hexadecimal digit that
/// starts at weight 512.
pub proof fn lemma_status_fields(word: u32)
    ensures
        ready_for_data(word) <==> (word / 256) % 2 == 1,
        current_state(word) == (word / 512) % 16,
        current_state(word) <= 15,
{
    assert(((word >> 8) & 1 == 1) <==> (word / 256) % 2 == 1) by (bit_vector);
    assert((word >> 9) & 0xF == (word / 512) % 16) by (bit_vector);
}

/// Whether the card reports that it is ready for data.
pub fn is_ready_for_data(word: u32) -> (ready: bool)
    ensures
        ready == ready_for_data(word),
        ready == ((word >> 8) & 1 == 1),
{
    (word >> 8) & 1 == 1
}

/// The card's current state, a value from 0 to 15.
pub fn get_r1_state(word: u32) -> (state: u32)
    ensures
        state == current_state(word),
        state == (word >> 9) & 0xF,
        state <= 15,
{
    assert((word >> 9) & 0xF <= 15) by (bit_vector);
    (word >> 9) & 0xF
}

/// Whether the card can take the next command.
pub fn is_device_ready(word: u32) -> (ready: bool)
    ensures
        ready == device_ready(word),
{
    is_ready_for_data(word) && get_r1_state(word) != R1_STATE_PRG
}

} // verus!
