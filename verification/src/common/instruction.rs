//! The instruction catalog: the closed set of opcodes and their fixed numeric
//! codes. Codes are grouped by category (0x0x control, 0x1x arithmetic,
//! 0x2x logic, 0x3x load, 0x4x store and stack, 0x5x control flow), and every
//! byte without an assigned code maps back to the `Invalid` sentinel.

use vstd::prelude::*;

verus! {

#[derive(Debug, Clone, Copy, PartialEq, Eq, Structural)]
pub enum Instruction {
    NOp,
    Halt,
    Move,
    Increment,
    Decrement,
    Add,
    Subtract,
    Multiply,
    Divide,
    Compare,
    CompareImmediate,
    AddImmediate,
    SubtractImmediate,
    Or,
    And,
    XOr,
    Negate,
    Complement,
    LoadImmediate,
    Load,
    LoadByte,
    LoadDirect,
    LoadDirectByte,
    Store,
    StoreByte,
    StoreDirect,
    StoreDirectByte,
    Push,
    Pop,
    Jump,
    Call,
    Return,
    BranchEqual,
    BranchNotEqual,
    Invalid,
}

/// The numeric code of each opcode.
pub open spec fn code_of(i: Instruction) -> u8 {
    match i {
        Instruction::NOp => 0x00,
        Instruction::Halt => 0x01,
        Instruction::Move => 0x02,
        Instruction::Increment => 0x10,
        Instruction::Decrement => 0x11,
        Instruction::Add => 0x12,
        Instruction::Subtract => 0x13,
        Instruction::Multiply => 0x14,
        Instruction::Divide => 0x15,
        Instruction::Compare => 0x16,
        Instruction::CompareImmediate => 0x17,
        Instruction::AddImmediate => 0x18,
        Instruction::SubtractImmediate => 0x19,
        Instruction::Or => 0x20,
        Instruction::And => 0x21,
        Instruction::XOr => 0x22,
        Instruction::Negate => 0x23,
        Instruction::Complement => 0x24,
        Instruction::LoadImmediate => 0x30,
        Instruction::Load => 0x31,
        Instruction::LoadByte => 0x32,
        Instruction::LoadDirect => 0x33,
        Instruction::LoadDirectByte => 0x34,
        Instruction::Store => 0x40,
        Instruction::StoreByte => 0x41,
        Instruction::StoreDirect => 0x42,
        Instruction::StoreDirectByte => 0x43,
        Instruction::Push => 0x44,
        Instruction::Pop => 0x45,
        Instruction::Jump => 0x50,
        Instruction::Call => 0x51,
        Instruction::Return => 0x52,
        Instruction::BranchEqual => 0x53,
        Instruction::BranchNotEqual => 0x54,
        Instruction::Invalid => 0xFF,
    }
}

/// The opcode of each numeric code; a byte with no assigned code gives the
/// `Invalid` sentinel, so decoding is total.
pub open spec fn of_code(value: u8) -> Instruction {
    match value {
        0x00 => Instruction::NOp,
        0x01 => Instruction::Halt,
        0x02 => Instruction::Move,
        0x10 => Instruction::Increment,
        0x11 => Instruction::Decrement,
        0x12 => Instruction::Add,
        0x13 => Instruction::Subtract,
        0x14 => Instruction::Multiply,
        0x15 => Instruction::Divide,
        0x16 => Instruction::Compare,
        0x17 => Instruction::CompareImmediate,
        0x18 => Instruction::AddImmediate,
        0x19 => Instruction::SubtractImmediate,
        0x20 => Instruction::Or,
        0x21 => Instruction::And,
        0x22 => Instruction::XOr,
        0x23 => Instruction::Negate,
        0x24 => Instruction::Complement,
        0x30 => Instruction::LoadImmediate,
        0x31 => Instruction::Load,
        0x32 => Instruction::LoadByte,
        0x33 => Instruction::LoadDirect,
        0x34 => Instruction::LoadDirectByte,
        0x40 => Instruction::Store,
        0x41 => Instruction::StoreByte,
        0x42 => Instruction::StoreDirect,
        0x43 => Instruction::StoreDirectByte,
        0x44 => Instruction::Push,
        0x45 => Instruction::Pop,
        0x50 => Instruction::Jump,
        0x51 => Instruction::Call,
        0x52 => Instruction::Return,
        0x53 => Instruction::BranchEqual,
        0x54 => Instruction::BranchNotEqual,
        _ => Instruction::Invalid,
    }
}

impl Instruction {
    pub fn to_code(self) -> (c: u8)
        ensures
            c == code_of(self),
    {
        match self {
            Instruction::NOp => 0x00,
            Instruction::Halt => 0x01,
            Instruction::Move => 0x02,
            Instruction::Increment => 0x10,
            Instruction::Decrement => 0x11,
            Instruction::Add => 0x12,
            Instruction::Subtract => 0x13,
            Instruction::Multiply => 0x14,
            Instruction::Divide => 0x15,
            Instruction::Compare => 0x16,
            Instruction::CompareImmediate => 0x17,
            Instruction::AddImmediate => 0x18,
            Instruction::SubtractImmediate => 0x19,
            Instruction::Or => 0x20,
            Instruction::And => 0x21,
            Instruction::XOr => 0x22,
            Instruction::Negate => 0x23,
            Instruction::Complement => 0x24,
            Instruction::LoadImmediate => 0x30,
            Instruction::Load => 0x31,
            Instruction::LoadByte => 0x32,
            Instruction::LoadDirect => 0x33,
            Instruction::LoadDirectByte => 0x34,
            Instruction::Store => 0x40,
            Instruction::StoreByte => 0x41,
            Instruction::StoreDirect => 0x42,
            Instruction::StoreDirectByte => 0x43,
            Instruction::Push => 0x44,
            Instruction::Pop => 0x45,
            Instruction::Jump => 0x50,
            Instruction::Call => 0x51,
            Instruction::Return => 0x52,
            Instruction::BranchEqual => 0x53,
            Instruction::BranchNotEqual => 0x54,
            Instruction::Invalid => 0xFF,
        }
    }

    pub fn from_code(value: u8) -> (i: Instruction)
        ensures
            i == of_code(value),
    {
        match value {
            0x00 => Instruction::NOp,
            0x01 => Instruction::Halt,
            0x02 => Instruction::Move,
            0x10 => Instruction::Increment,
            0x11 => Instruction::Decrement,
            0x12 => Instruction::Add,
            0x13 => Instruction::Subtract,
            0x14 => Instruction::Multiply,
            0x15 => Instruction::Divide,
            0x16 => Instruction::Compare,
            0x17 => Instruction::CompareImmediate,
            0x18 => Instruction::AddImmediate,
            0x19 => Instruction::SubtractImmediate,
            0x20 => Instruction::Or,
            0x21 => Instruction::And,
            0x22 => Instruction::XOr,
            0x23 => Instruction::Negate,
            0x24 => Instruction::Complement,
            0x30 => Instruction::LoadImmediate,
            0x31 => Instruction::Load,
            0x32 => Instruction::LoadByte,
            0x33 => Instruction::LoadDirect,
            0x34 => Instruction::LoadDirectByte,
            0x40 => Instruction::Store,
            0x41 => Instruction::StoreByte,
            0x42 => Instruction::StoreDirect,
            0x43 => Instruction::StoreDirectByte,
            0x44 => Instruction::Push,
            0x45 => Instruction::Pop,
            0x50 => Instruction::Jump,
            0x51 => Instruction::Call,
            0x52 => Instruction::Return,
            0x53 => Instruction::BranchEqual,
            0x54 => Instruction::BranchNotEqual,
            _ => Instruction::Invalid,
        }
    }
}

/// Every opcode survives the trip through its numeric code.
pub proof fn lemma_code_roundtrip(i: Instruction)
    ensures
        of_code(code_of(i)) == i,
{
}

/// A numeric code either decodes to the opcode it is assigned to, or it is
/// unassigned and decodes to the `Invalid` sentinel.
pub proof fn lemma_unassigned_code_is_invalid(value: u8)
    ensures
        of_code(value) == Instruction::Invalid || code_of(of_code(value)) == value,
{
}

} // verus!
