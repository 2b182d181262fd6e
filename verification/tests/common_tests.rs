//! Tests of the byte/word helpers and the eight-byte instruction encoding.

use mycpu::common::encoding::DecodedInstruction;
use mycpu::common::instruction::Instruction;
use mycpu::common::util::{bytes_to_u32, u32_to_bytes};
use mycpu::instruction::{DecodedInstruction as WordInstruction, Instruction as WordOp};

#[test]
fn test_bytes_to_u32() {
    let bytes = [0xAA, 0xBB, 0xCC, 0xDD];
    let result = bytes_to_u32(bytes[0], bytes[1], bytes[2], bytes[3]);
    assert_eq!(result, 0xAABBCCDD);
}

#[test]
fn test_u32_to_bytes() {
    let bytes = [0xAA, 0xBB, 0xCC, 0xDD];
    let result = u32_to_bytes(0xAABBCCDD);
    assert_eq!(result, bytes);
}

#[test]
fn test_encode() {
    assert_eq!(1, 1);
}

fn all_opcodes() -> Vec<Instruction> {
    vec![
        Instruction::NOp,
        Instruction::Halt,
        Instruction::Move,
        Instruction::Increment,
        Instruction::Decrement,
        Instruction::Add,
        Instruction::Subtract,
        Instruction::Multiply,
        Instruction::Divide,
        Instruction::Compare,
        Instruction::CompareImmediate,
        Instruction::AddImmediate,
        Instruction::SubtractImmediate,
        Instruction::Or,
        Instruction::And,
        Instruction::XOr,
        Instruction::Negate,
        Instruction::Complement,
        Instruction::LoadImmediate,
        Instruction::Load,
        Instruction::LoadByte,
        Instruction::LoadDirect,
        Instruction::LoadDirectByte,
        Instruction::Store,
        Instruction::StoreByte,
        Instruction::StoreDirect,
        Instruction::StoreDirectByte,
        Instruction::Push,
        Instruction::Pop,
        Instruction::Jump,
        Instruction::Call,
        Instruction::Return,
        Instruction::BranchEqual,
        Instruction::BranchNotEqual,
        Instruction::Invalid,
    ]
}

#[test]
fn test_decode_encode_roundtrip() {
    for op in all_opcodes() {
        let d = DecodedInstruction::new(op, 1, 2, 3, 0xDEADBEEF);
        let encoded = d.encode();
        let decoded = DecodedInstruction::decode(&encoded);
        assert_eq!(decoded, d);
    }
    let d = DecodedInstruction::new(Instruction::LoadImmediate, 18, 0, 0, 0xFFFF_FFFF);
    assert_eq!(DecodedInstruction::decode(&d.encode()), d);
}

#[test]
fn test_decode_is_total() {
    let mut assigned = Vec::new();
    for op in all_opcodes() {
        assigned.push(op.to_code());
    }
    for b in 0..=255u8 {
        let d = DecodedInstruction::decode(&[b, 9, 8, 7, 0, 0, 0, 1]);
        if !assigned.contains(&b) {
            assert_eq!(d.instruction_type, Instruction::Invalid);
        } else {
            assert_eq!(d.instruction_type.to_code(), b);
        }
        assert_eq!(d.reg_1, 9);
        assert_eq!(d.operand, 1);
    }
}

#[test]
fn test_code_table() {
    assert_eq!(Instruction::NOp.to_code(), 0x00);
    assert_eq!(Instruction::Halt.to_code(), 0x01);
    assert_eq!(Instruction::Increment.to_code(), 0x10);
    assert_eq!(Instruction::LoadImmediate.to_code(), 0x30);
    assert_eq!(Instruction::Invalid.to_code(), 0xFF);
    assert_eq!(Instruction::from_code(0x30), Instruction::LoadImmediate);
    assert_eq!(Instruction::from_code(0xAB), Instruction::Invalid);
}

#[test]
fn test_encode_layout() {
    let d = DecodedInstruction::new(Instruction::LoadImmediate, 4, 0, 0, 0x01020304);
    let bytes = d.encode();
    assert_eq!(bytes, [0x30, 4, 0, 0, 0x01, 0x02, 0x03, 0x04]);
}

#[test]
fn test_invalid_constructor() {
    let d = DecodedInstruction::invalid();
    assert_eq!(d.instruction_type, Instruction::Invalid);
    assert_eq!(d.operand, 0);
}

#[test]
fn test_word_codec_roundtrip() {
    let words = WordInstruction::encode(WordOp::Add, 1, 2, 3, 0xCAFEBABE);
    let d = WordInstruction::decode(&words);
    assert_eq!(d.instruction_type, WordOp::Add);
    assert_eq!(d.reg_1, 1);
    assert_eq!(d.reg_2, 2);
    assert_eq!(d.reg_3, 3);
    assert_eq!(d.operand, 0xCAFEBABE);
}
