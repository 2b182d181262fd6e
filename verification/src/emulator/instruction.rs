//! The execution engine's early opcode subset and its explicit code table:
//! every byte without an assigned code maps to the `Invalid` sentinel.

use vstd::prelude::*;

verus! {

#[derive(Debug, Clone, Copy, PartialEq, Eq, Structural)]
pub enum Instruction {
    NOp,
    Halt,
    Increment,
    Decrement,
    Add,
    Subtract,
    Multiply,
    Divide,
    Or,
    And,
    XOr,
    Negate,
    Complement,
    LoadImmediate,
    Invalid,
}

/// The numeric code of each opcode of this subset.
pub open spec fn code_of(i: Instruction) -> u8 {
    match i {
        Instruction::NOp => 0x00,
        Instruction::Halt => 0x01,
        Instruction::Increment => 0x10,
        Instruction::Decrement => 0x11,
        Instruction::Add => 0x12,
        Instruction::Subtract => 0x13,
        Instruction::Multiply => 0x14,
        Instruction::Divide => 0x15,
        Instruction::Or => 0x20,
        Instruction::And => 0x21,
        Instruction::XOr => 0x22,
        Instruction::Negate => 0x23,
        Instruction::Complement => 0x24,
        Instruction::LoadImmediate => 0x30,
        Instruction::Invalid => 0xFF,
    }
}

/// The opcode of each numeric code; unassigned bytes give `Invalid`.
pub open spec fn of_code(value: u8) -> Instruction {
    match value {
        0x00 => Instruction::NOp,
        0x01 => Instruction::Halt,
        0x10 => Instruction::Increment,
        0x11 => Instruction::Decrement,
        0x12 => Instruction::Add,
        0x13 => Instruction::Subtract,
        0x14 => Instruction::Multiply,
        0x15 => Instruction::Divide,
        0x20 => Instruction::Or,
        0x21 => Instruction::And,
        0x22 => Instruction::XOr,
        0x23 => Instruction::Negate,
        0x24 => Instruction::Complement,
        0x30 => Instruction::LoadImmediate,
        _ => Instruction::Invalid,
    }
}

impl Instruction {
    pub fn to_code(self) -> (c: u8)
        ensures
            c == code_of(self),
    {
        match self {
            Instruction::NOp => 0x00,
            Instruction::Halt => 0x01,
            Instruction::Increment => 0x10,
            Instruction::Decrement => 0x11,
            Instruction::Add => 0x12,
            Instruction::Subtract => 0x13,
            Instruction::Multiply => 0x14,
            Instruction::Divide => 0x15,
            Instruction::Or => 0x20,
            Instruction::And => 0x21,
            Instruction::XOr => 0x22,
            Instruction::Negate => 0x23,
            Instruction::Complement => 0x24,
            Instruction::LoadImmediate => 0x30,
            Instruction::Invalid => 0xFF,
        }
    }

    pub fn from_code(value: u8) -> (i: Instruction)
        ensures
            i == of_code(value),
    {
        match value {
            0x00 => Instruction::NOp,
            0x01 => Instruction::Halt,
            0x10 => Instruction::Increment,
            0x11 => Instruction::Decrement,
            0x12 => Instruction::Add,
            0x13 => Instruction::Subtract,
            0x14 => Instruction::Multiply,
            0x15 => Instruction::Divide,
            0x20 => Instruction::Or,
            0x21 => Instruction::And,
            0x22 => Instruction::XOr,
            0x23 => Instruction::Negate,
            0x24 => Instruction::Complement,
            0x30 => Instruction::LoadImmediate,
            _ => Instruction::Invalid,
        }
    }
}

/// Every opcode of this subset survives the trip through its numeric code.
pub proof fn lemma_code_roundtrip(i: Instruction)
    ensures
        of_code(code_of(i)) == i,
{
}

} // verus!
