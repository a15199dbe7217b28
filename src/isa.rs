//! Instruction words and their decoding.
use vstd::prelude::*;

verus! {

/// An instruction, decoded from a 16-bit word.
#[derive(Clone, Copy, Debug, PartialEq, Eq, Structural)]
pub enum Instruction {
    /// `0x0000`: stop the machine.
    Halt,
    /// `0x00EE`: return from a subroutine.
    Return,
    /// `0x2nnn`: call the subroutine at address `nnn`.
    Call(u16),
    /// `0x8xy4`: add register `y` to register `x`, setting the flags register.
    AddRegisters(u8, u8),
    /// Any other word.
    Unknown(u16),
}

/// Bits 15 to 12 of a word: the opcode family.
pub open spec fn family(w: u16) -> int {
    w as int / 4096
}

/// Bits 11 to 8 of a word.
pub open spec fn field_x(w: u16) -> int {
    (w as int / 256) % 16
}

/// Bits 7 to 4 of a word.
pub open spec fn field_y(w: u16) -> int {
    (w as int / 16) % 16
}

/// Bits 3 to 0 of a word.
pub open spec fn field_d(w: u16) -> int {
    w as int % 16
}

/// Bits 11 to 0 of a word: an address.
pub open spec fn field_nnn(w: u16) -> int {
    w as int % 4096
}

/// The instruction a word stands for, in order of precedence.
pub open spec fn decoded(w: u16) -> Instruction {
    if family(w) == 0 && field_x(w) == 0 && field_y(w) == 0 && field_d(w) == 0 {
        Instruction::Halt
    } else if family(w) == 0 && field_x(w) == 0 && field_y(w) == 0xE && field_d(w) == 0xE {
        Instruction::Return
    } else if family(w) == 2 {
        Instruction::Call(field_nnn(w) as u16)
    } else if family(w) == 8 && field_d(w) == 4 {
        Instruction::AddRegisters(field_x(w) as u8, field_y(w) as u8)
    } else {
        Instruction::Unknown(w)
    }
}

/// The big-endian word made of the bytes `hi` and `lo`.
pub open spec fn word_of(hi: u8, lo: u8) -> u16 {
    (hi as int * 256 + lo as int) as u16
}

impl Instruction {
    /// Splits `word` into its fields and selects the instruction they name.
    pub fn decode(word: u16) -> (r: Instruction)
        ensures
            r == decoded(word),
    {
        let c: u16 = (word & 0xF000) >> 12;
        let x: u16 = (word & 0x0F00) >> 8;
        let y: u16 = (word & 0x00F0) >> 4;
        let d: u16 = word & 0x000F;
        let nnn: u16 = word & 0x0FFF;
        assert(c == word / 4096 && x == (word / 256) % 16 && y == (word / 16) % 16 && d == word
            % 16 && nnn == word % 4096) by (bit_vector)
            requires
                c == (word & 0xF000) >> 12,
                x == (word & 0x0F00) >> 8,
                y == (word & 0x00F0) >> 4,
                d == word & 0x000F,
                nnn == word & 0x0FFF,
        ;
        if c == 0 && x == 0 && y == 0 && d == 0 {
            Instruction::Halt
        } else if c == 0 && x == 0 && y == 0xE && d == 0xE {
            Instruction::Return
        } else if c == 2 {
            Instruction::Call(nnn)
        } else if c == 8 && d == 4 {
            Instruction::AddRegisters(x as u8, y as u8)
        } else {
            Instruction::Unknown(word)
        }
    }
}

} // verus!
