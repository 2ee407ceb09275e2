//! The instruction set: one byte per instruction, low nibble the opcode
//! family, high nibble the operand.

use vstd::prelude::*;

verus! {

/// High-nibble value that stands for "an immediate atom follows".
pub const OPERAND_IMMEDIATE: u8 = 15;

/// The opcodes. The first fourteen take an operand in the high nibble; the
/// other seven are whole bytes with low nibble `0xf`.
#[derive(Debug, Clone, Copy, PartialEq, Eq, Structural)]
pub enum OpCode {
    REG,
    SET,
    LOA,
    STO,
    PSH,
    POP,
    ADD,
    SUB,
    CAL,
    INT,
    JMP,
    JPZ,
    JPC,
    JPS,
    RET,
    CLR,
    INV,
    NEG,
    BRK,
    HLT,
    END,
}

impl OpCode {
    /// The byte of the opcode: the low nibble for an opcode that takes an
    /// operand, the whole instruction byte for one that takes none.
    pub open spec fn spec_byte(self) -> u8 {
        match self {
            OpCode::REG => 0x00,
            OpCode::SET => 0x01,
            OpCode::LOA => 0x02,
            OpCode::STO => 0x03,
            OpCode::PSH => 0x04,
            OpCode::POP => 0x05,
            OpCode::ADD => 0x06,
            OpCode::SUB => 0x07,
            OpCode::CAL => 0x08,
            OpCode::INT => 0x09,
            OpCode::JMP => 0x0a,
            OpCode::JPZ => 0x0b,
            OpCode::JPC => 0x0c,
            OpCode::JPS => 0x0d,
            OpCode::RET => 0x0f,
            OpCode::CLR => 0x1f,
            OpCode::INV => 0x2f,
            OpCode::NEG => 0x3f,
            OpCode::BRK => 0xdf,
            OpCode::HLT => 0xef,
            OpCode::END => 0xff,
        }
    }

    /// Whether the opcode belongs to the family without operand.
    pub open spec fn spec_bare(self) -> bool {
        self.spec_byte() % 16 == 15
    }

    /// The opcode that an instruction byte selects, if any. A byte with a low
    /// nibble below `0xe` selects by that nibble alone; one with low nibble
    /// `0xf` selects as a whole.
    pub open spec fn spec_from_byte(byte: u8) -> Option<OpCode> {
        let low = byte % 16;
        if low == 0x00 {
            Some(OpCode::REG)
        } else if low == 0x01 {
            Some(OpCode::SET)
        } else if low == 0x02 {
            Some(OpCode::LOA)
        } else if low == 0x03 {
            Some(OpCode::STO)
        } else if low == 0x04 {
            Some(OpCode::PSH)
        } else if low == 0x05 {
            Some(OpCode::POP)
        } else if low == 0x06 {
            Some(OpCode::ADD)
        } else if low == 0x07 {
            Some(OpCode::SUB)
        } else if low == 0x08 {
            Some(OpCode::CAL)
        } else if low == 0x09 {
            Some(OpCode::INT)
        } else if low == 0x0a {
            Some(OpCode::JMP)
        } else if low == 0x0b {
            Some(OpCode::JPZ)
        } else if low == 0x0c {
            Some(OpCode::JPC)
        } else if low == 0x0d {
            Some(OpCode::JPS)
        } else if byte == 0x0f {
            Some(OpCode::RET)
        } else if byte == 0x1f {
            Some(OpCode::CLR)
        } else if byte == 0x2f {
            Some(OpCode::INV)
        } else if byte == 0x3f {
            Some(OpCode::NEG)
        } else if byte == 0xdf {
            Some(OpCode::BRK)
        } else if byte == 0xef {
            Some(OpCode::HLT)
        } else if byte == 0xff {
            Some(OpCode::END)
        } else {
            None
        }
    }

    /// The byte of the opcode.
    pub fn byte(&self) -> (b: u8)
        ensures
            b == self.spec_byte(),
    {
        match self {
            OpCode::REG => 0x00,
            OpCode::SET => 0x01,
            OpCode::LOA => 0x02,
            OpCode::STO => 0x03,
            OpCode::PSH => 0x04,
            OpCode::POP => 0x05,
            OpCode::ADD => 0x06,
            OpCode::SUB => 0x07,
            OpCode::CAL => 0x08,
            OpCode::INT => 0x09,
            OpCode::JMP => 0x0a,
            OpCode::JPZ => 0x0b,
            OpCode::JPC => 0x0c,
            OpCode::JPS => 0x0d,
            OpCode::RET => 0x0f,
            OpCode::CLR => 0x1f,
            OpCode::INV => 0x2f,
            OpCode::NEG => 0x3f,
            OpCode::BRK => 0xdf,
            OpCode::HLT => 0xef,
            OpCode::END => 0xff,
        }
    }

    /// Whether the opcode takes no operand.
    pub fn bare(&self) -> (b: bool)
        ensures
            b == self.spec_bare(),
    {
        self.byte() % 16 == 15
    }

    /// The opcode that an instruction byte selects, if any.
    pub fn from_byte(byte: u8) -> (op: Option<OpCode>)
        ensures
            op == OpCode::spec_from_byte(byte),
    {
        let low: u8 = byte % 16;
        if low == 0x00 {
            Some(OpCode::REG)
        } else if low == 0x01 {
            Some(OpCode::SET)
        } else if low == 0x02 {
            Some(OpCode::LOA)
        } else if low == 0x03 {
            Some(OpCode::STO)
        } else if low == 0x04 {
            Some(OpCode::PSH)
        } else if low == 0x05 {
            Some(OpCode::POP)
        } else if low == 0x06 {
            Some(OpCode::ADD)
        } else if low == 0x07 {
            Some(OpCode::SUB)
        } else if low == 0x08 {
            Some(OpCode::CAL)
        } else if low == 0x09 {
            Some(OpCode::INT)
        } else if low == 0x0a {
            Some(OpCode::JMP)
        } else if low == 0x0b {
            Some(OpCode::JPZ)
        } else if low == 0x0c {
            Some(OpCode::JPC)
        } else if low == 0x0d {
            Some(OpCode::JPS)
        } else if byte == 0x0f {
            Some(OpCode::RET)
        } else if byte == 0x1f {
            Some(OpCode::CLR)
        } else if byte == 0x2f {
            Some(OpCode::INV)
        } else if byte == 0x3f {
            Some(OpCode::NEG)
        } else if byte == 0xdf {
            Some(OpCode::BRK)
        } else if byte == 0xef {
            Some(OpCode::HLT)
        } else if byte == 0xff {
            Some(OpCode::END)
        } else {
            None
        }
    }
}

} // verus!
