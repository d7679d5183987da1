//! Instruction words and their fields.

use vstd::prelude::*;

verus! {

/// An instruction word taken apart.
#[derive(Debug)]
pub struct Instruction {
    /// The four nibbles, most significant first.
    pub parts: (u8, u8, u8, u8),
    /// The lowest 12 bits: an address.
    pub nnn: u16,
    /// The lowest nibble.
    pub n: u8,
    /// The low nibble of the high byte: a register.
    pub x: u8,
    /// The high nibble of the low byte: a register.
    pub y: u8,
    /// The low byte.
    pub kk: u8,
}

/// The fields of instruction word `word`.
pub open spec fn decoded(word: u16) -> Instruction {
    Instruction {
        parts: (
            (word / 4096) as u8,
            (word / 256 % 16) as u8,
            (word / 16 % 16) as u8,
            (word % 16) as u8,
        ),
        nnn: (word % 4096) as u16,
        n: (word % 16) as u8,
        x: (word / 256 % 16) as u8,
        y: (word / 16 % 16) as u8,
        kk: (word % 256) as u8,
    }
}

impl Instruction {
    pub fn new(instruction: u16) -> (decoded_word: Instruction)
        ensures
            decoded_word == decoded(instruction),
    {
        assert((instruction & 0xF000) >> 12 == instruction / 4096) by (bit_vector);
        assert((instruction & 0x0F00) >> 8 == instruction / 256 % 16) by (bit_vector);
        assert((instruction & 0x00F0) >> 4 == instruction / 16 % 16) by (bit_vector);
        assert(instruction & 0x000F == instruction % 16) by (bit_vector);
        assert(instruction & 0x0FFF == instruction % 4096) by (bit_vector);
        assert(instruction & 0x00FF == instruction % 256) by (bit_vector);
        let parts = (
            ((instruction & 0xF000) >> 12) as u8,
            ((instruction & 0x0F00) >> 8) as u8,
            ((instruction & 0x00F0) >> 4) as u8,
            (instruction & 0x000F) as u8,
        );
        Instruction {
            parts,
            nnn: instruction & 0x0FFF,
            n: parts.3,
            x: parts.1,
            y: parts.2,
            kk: (instruction & 0x00FF) as u8,
        }
    }
}

} // verus!
