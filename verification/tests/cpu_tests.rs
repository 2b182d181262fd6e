//! Tests of the early register-only execution engine.

use mycpu::cpu::{
    Register::{PC, R0, R1, R2, R5},
    CPU,
};
use mycpu::instruction::{
    DecodedInstruction,
    Instruction::{
        Add, And, Complement, Decrement, Divide, Increment, LoadImmediate, Multiply, Negate, Or,
        Subtract, XOr,
    },
};
use mycpu::memory::Memory;

fn create_cpu() -> CPU {
    CPU::new(Memory::new(1024))
}

fn cpu_arith_prep() -> CPU {
    let mut cpu = create_cpu();
    cpu.set_register(R1, 10);
    cpu.set_register(R2, 5);
    cpu
}

fn cpu_binary_prep() -> CPU {
    let mut cpu = create_cpu();
    cpu.set_register(R1, 0b1010);
    cpu.set_register(R2, 0b1101);
    cpu
}

#[test]
fn cpu_test_load_immediate() {
    let mut cpu = create_cpu();
    cpu.execute_instruction(DecodedInstruction::new(LoadImmediate, 0, 0, 0, 1337));
    assert_eq!(cpu.get_register(R0), 1337);
}

#[test]
fn cpu_test_increment() {
    let mut cpu = cpu_arith_prep();
    cpu.execute_instruction(DecodedInstruction::new(Increment, 1, 0, 0, 0));
    assert_eq!(cpu.get_register(R1), 11);
}

#[test]
fn cpu_test_decrement() {
    let mut cpu = cpu_arith_prep();
    cpu.execute_instruction(DecodedInstruction::new(Decrement, 1, 0, 0, 0));
    assert_eq!(cpu.get_register(R1), 9);
}

#[test]
fn cpu_test_add() {
    let mut cpu = cpu_arith_prep();
    cpu.execute_instruction(DecodedInstruction::new(Add, 0, 1, 2, 0));
    assert_eq!(cpu.get_register(R0), 15);
}

#[test]
fn cpu_test_subtract() {
    let mut cpu = cpu_arith_prep();
    cpu.execute_instruction(DecodedInstruction::new(Subtract, 0, 1, 2, 0));
    assert_eq!(cpu.get_register(R0), 5);
}

#[test]
fn cpu_test_multiply() {
    let mut cpu = cpu_arith_prep();
    cpu.execute_instruction(DecodedInstruction::new(Multiply, 0, 1, 2, 0));
    assert_eq!(cpu.get_register(R0), 50);
}

#[test]
fn cpu_test_divide() {
    let mut cpu = cpu_arith_prep();
    cpu.execute_instruction(DecodedInstruction::new(Divide, 0, 1, 2, 0));
    assert_eq!(cpu.get_register(R0), 2);
}

#[test]
fn cpu_test_or() {
    let mut cpu = cpu_binary_prep();
    cpu.execute_instruction(DecodedInstruction::new(Or, 0, 1, 2, 0));
    assert_eq!(cpu.get_register(R0), 0b1111);
}

#[test]
fn cpu_test_and() {
    let mut cpu = cpu_binary_prep();
    cpu.execute_instruction(DecodedInstruction::new(And, 0, 1, 2, 0));
    assert_eq!(cpu.get_register(R0), 0b1000);
}

#[test]
fn cpu_test_xor() {
    let mut cpu = cpu_binary_prep();
    cpu.execute_instruction(DecodedInstruction::new(XOr, 0, 1, 2, 0));
    assert_eq!(cpu.get_register(R0), 0b0111);
}

#[test]
fn cpu_test_negate() {
    let mut cpu = create_cpu();
    cpu.set_register(R0, 0b00000000_00000001);
    cpu.execute_instruction(DecodedInstruction::new(Negate, 0, 0, 0, 0));
    assert_eq!(cpu.get_register(R0), 0b11111111_11111111_11111111_11111111);
}

#[test]
fn cpu_test_complement() {
    let mut cpu = create_cpu();
    cpu.set_register(R0, 0b00000000_00000001);
    cpu.execute_instruction(DecodedInstruction::new(Complement, 0, 0, 0, 0));
    assert_eq!(cpu.get_register(R0), 0b11111111_11111111_11111111_11111110);
}

#[test]
fn cpu_test_run_single_step() {
    let mut memory = Memory::new(1024);
    memory.write_instruction(
        0,
        DecodedInstruction::encode(mycpu::instruction::Instruction::LoadImmediate, 5, 0, 0, 42),
    );
    let mut cpu = CPU::new(memory);
    cpu.run();
    assert_eq!(cpu.get_register(R5), 42);
    assert_eq!(cpu.get_register(PC), 8);
}
