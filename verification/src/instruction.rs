//! An early, register-only instruction set and its two-word encoding: the
//! first word packs the opcode code and the three register indices, the
//! second word is the operand.

use vstd::prelude::*;

use crate::common::util;

verus! {

#[derive(Debug, Clone, Copy, PartialEq, Eq, Structural)]
pub enum Instruction {
    NOp,
    Invalid,
    Increment,
    Decrement,
    Add,
    Subtract,
    Multiply,
    Divide,
    Or,
    And,
    XOr,
    Negate,
    Complement,
    LoadImmediate,
}

/// The numeric code of each opcode of this reduced set.
pub open spec fn code_of(i: Instruction) -> u8 {
    match i {
        Instruction::NOp => 0x00,
        Instruction::Increment => 0x10,
        Instruction::Decrement => 0x11,
        Instruction::Add => 0x12,
        Instruction::Subtract => 0x13,
        Instruction::Multiply => 0x14,
        Instruction::Divide => 0x15,
        Instruction::Or => 0x20,
        Instruction::And => 0x21,
        Instruction::XOr => 0x22,
        Instruction::Negate => 0x23,
        Instruction::Complement => 0x24,
        Instruction::LoadImmediate => 0x30,
        Instruction::Invalid => 0xFF,
    }
}

/// The opcode of each numeric code; unassigned bytes give `Invalid`.
pub open spec fn of_code(value: u8) -> Instruction {
    match value {
        0x00 => Instruction::NOp,
        0x10 => Instruction::Increment,
        0x11 => Instruction::Decrement,
        0x12 => Instruction::Add,
        0x13 => Instruction::Subtract,
        0x14 => Instruction::Multiply,
        0x15 => Instruction::Divide,
        0x20 => Instruction::Or,
        0x21 => Instruction::And,
        0x22 => Instruction::XOr,
        0x23 => Instruction::Negate,
        0x24 => Instruction::Complement,
        0x30 => Instruction::LoadImmediate,
        _ => Instruction::Invalid,
    }
}

impl Instruction {
    pub fn to_code(self) -> (c: u8)
        ensures
            c == code_of(self),
    {
        match self {
            Instruction::NOp => 0x00,
            Instruction::Increment => 0x10,
            Instruction::Decrement => 0x11,
            Instruction::Add => 0x12,
            Instruction::Subtract => 0x13,
            Instruction::Multiply => 0x14,
            Instruction::Divide => 0x15,
            Instruction::Or => 0x20,
            Instruction::And => 0x21,
            Instruction::XOr => 0x22,
            Instruction::Negate => 0x23,
            Instruction::Complement => 0x24,
            Instruction::LoadImmediate => 0x30,
            Instruction::Invalid => 0xFF,
        }
    }

    pub fn from_code(value: u8) -> (i: Instruction)
        ensures
            i == of_code(value),
    {
        match value {
            0x00 => Instruction::NOp,
            0x10 => Instruction::Increment,
            0x11 => Instruction::Decrement,
            0x12 => Instruction::Add,
            0x13 => Instruction::Subtract,
            0x14 => Instruction::Multiply,
            0x15 => Instruction::Divide,
            0x20 => Instruction::Or,
            0x21 => Instruction::And,
            0x22 => Instruction::XOr,
            0x23 => Instruction::Negate,
            0x24 => Instruction::Complement,
            0x30 => Instruction::LoadImmediate,
            _ => Instruction::Invalid,
        }
    }
}

#[derive(Debug, Clone, Copy, PartialEq, Eq, Structural)]
pub struct DecodedInstruction {
    pub instruction_type: Instruction,
    pub reg_1: u8,
    pub reg_2: u8,
    pub reg_3: u8,
    pub operand: u32,
}

/// The instruction encoded by a pair of words: the first word's big-endian
/// bytes are the opcode code and the three register indices, the second word
/// is the operand.
pub open spec fn decode_spec(words: Seq<u32>) -> DecodedInstruction
    recommends
        words.len() == 2,
{
    DecodedInstruction {
        instruction_type: of_code(util::bytes_of_u32(words[0])[0]),
        reg_1: util::bytes_of_u32(words[0])[1],
        reg_2: util::bytes_of_u32(words[0])[2],
        reg_3: util::bytes_of_u32(words[0])[3],
        operand: words[1],
    }
}

/// The word pair that encodes opcode, registers and operand.
pub open spec fn encode_spec(
    instruction_type: Instruction,
    reg_1: u8,
    reg_2: u8,
    reg_3: u8,
    operand: u32,
) -> Seq<u32> {
    seq![util::u32_of_bytes(code_of(instruction_type), reg_1, reg_2, reg_3), operand]
}

impl DecodedInstruction {
    pub fn new(instruction_type: Instruction, reg_1: u8, reg_2: u8, reg_3: u8, operand: u32) -> (
        r: Self)
        ensures
            r == (DecodedInstruction { instruction_type, reg_1, reg_2, reg_3, operand }),
    {
        DecodedInstruction { instruction_type, reg_1, reg_2, reg_3, operand }
    }

    pub fn decode(instruction: &[u32; 2]) -> (r: DecodedInstruction)
        ensures
            r == decode_spec(instruction@),
    {
        let parts = util::u32_to_bytes(instruction[0]);
        let instruction_type = Instruction::from_code(parts[0]);
        DecodedInstruction::new(instruction_type, parts[1], parts[2], parts[3], instruction[1])
    }

    pub fn encode(
        instruction_type: Instruction,
        reg_1: u8,
        reg_2: u8,
        reg_3: u8,
        operand: u32,
    ) -> (r: [u32; 2])
        ensures
            r@ == encode_spec(instruction_type, reg_1, reg_2, reg_3, operand),
    {
        let t: u8 = instruction_type.to_code();
        let r = [util::bytes_to_u32(t, reg_1, reg_2, reg_3), operand];
        proof {
            assert(r@ =~= encode_spec(instruction_type, reg_1, reg_2, reg_3, operand));
        }
        r
    }
}

/// Decoding an encoded word pair gives the opcode, registers and operand
/// back, for every opcode of this set.
pub proof fn lemma_decode_encode_roundtrip(
    instruction_type: Instruction,
    reg_1: u8,
    reg_2: u8,
    reg_3: u8,
    operand: u32,
)
    ensures
        decode_spec(encode_spec(instruction_type, reg_1, reg_2, reg_3, operand))
            == (DecodedInstruction { instruction_type, reg_1, reg_2, reg_3, operand }),
{
    util::lemma_bytes_u32_roundtrip(code_of(instruction_type), reg_1, reg_2, reg_3);
}

} // verus!
