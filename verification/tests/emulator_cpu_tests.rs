//! Tests of the fetch-decode-execute engine: instruction semantics, status
//! flags, wrapping arithmetic, the stack, and the fault model.

use mycpu::assembler::codegen::assemble;
use mycpu::common::encoding::DecodedInstruction;
use mycpu::common::instruction::Instruction::{
    Add, And, BranchEqual, BranchNotEqual, Compare, Complement, Decrement, Divide, Increment,
    Invalid, Load, LoadByte, LoadDirect, LoadImmediate, Move, Multiply, Negate, Or, Pop, Push,
    Store, Subtract, XOr,
};
use mycpu::emulator::consoleio::ConsoleIO;
use mycpu::emulator::constants::{CONSOLEIO_START, MEMORY_END, MEMORY_START};
use mycpu::emulator::cpu::{
    Register,
    Register::{R0, R1, R2, R3, R4, R7, SP},
    StatusBit, CPU,
};
use mycpu::emulator::memory::{AddressSpace, Fault, Memory};

fn create_cpu() -> CPU {
    let addr_space = AddressSpace::default();

    CPU::new(addr_space)
}

fn cpu_arith_prep() -> CPU {
    let mut cpu = create_cpu();
    cpu.set_register(R1, 10);
    cpu.set_register(R2, 5);
    cpu
}

fn cpu_binary_prep() -> CPU {
    let mut cpu = create_cpu();
    cpu.set_register(R1, 0b1010);
    cpu.set_register(R2, 0b1101);
    cpu
}

#[test]
fn test_load_immediate() {
    let mut cpu = create_cpu();
    cpu.execute_instruction(&DecodedInstruction::new(LoadImmediate, 0, 0, 0, 1337))
        .unwrap();
    assert_eq!(cpu.get_register(R0), 1337);
}

#[test]
fn test_increment() {
    let mut cpu = cpu_arith_prep();
    cpu.execute_instruction(&DecodedInstruction::new(Increment, 1, 0, 0, 0))
        .unwrap();
    assert_eq!(cpu.get_register(R1), 11);
}

#[test]
fn test_decrement() {
    let mut cpu = cpu_arith_prep();
    cpu.execute_instruction(&DecodedInstruction::new(Decrement, 1, 0, 0, 0))
        .unwrap();
    assert_eq!(cpu.get_register(R1), 9);
}

#[test]
fn test_add() {
    let mut cpu = cpu_arith_prep();
    cpu.execute_instruction(&DecodedInstruction::new(Add, 0, 1, 2, 0))
        .unwrap();
    assert_eq!(cpu.get_register(R0), 15);
}

#[test]
fn test_subtract() {
    let mut cpu = cpu_arith_prep();
    cpu.execute_instruction(&DecodedInstruction::new(Subtract, 0, 1, 2, 0))
        .unwrap();
    assert_eq!(cpu.get_register(R0), 5);
}

#[test]
fn test_multiply() {
    let mut cpu = cpu_arith_prep();
    cpu.execute_instruction(&DecodedInstruction::new(Multiply, 0, 1, 2, 0))
        .unwrap();
    assert_eq!(cpu.get_register(R0), 50);
}

#[test]
fn test_divide() {
    let mut cpu = cpu_arith_prep();
    cpu.execute_instruction(&DecodedInstruction::new(Divide, 0, 1, 2, 0))
        .unwrap();
    assert_eq!(cpu.get_register(R0), 2);
}

#[test]
fn test_or() {
    let mut cpu = cpu_binary_prep();
    cpu.execute_instruction(&DecodedInstruction::new(Or, 0, 1, 2, 0))
        .unwrap();
    assert_eq!(cpu.get_register(R0), 0b1111);
}

#[test]
fn test_and() {
    let mut cpu = cpu_binary_prep();
    cpu.execute_instruction(&DecodedInstruction::new(And, 0, 1, 2, 0))
        .unwrap();
    assert_eq!(cpu.get_register(R0), 0b1000);
}

#[test]
fn test_xor() {
    let mut cpu = cpu_binary_prep();
    cpu.execute_instruction(&DecodedInstruction::new(XOr, 0, 1, 2, 0))
        .unwrap();
    assert_eq!(cpu.get_register(R0), 0b0111);
}

#[test]
fn test_negate() {
    let mut cpu = create_cpu();
    cpu.set_register(R0, 0b00000000_00000001);
    cpu.execute_instruction(&DecodedInstruction::new(Negate, 0, 0, 0, 0))
        .unwrap();
    assert_eq!(cpu.get_register(R0), 0b11111111_11111111_11111111_11111111);
}

#[test]
fn test_complement() {
    let mut cpu = create_cpu();
    cpu.set_register(R0, 0b00000000_00000001);
    cpu.execute_instruction(&DecodedInstruction::new(Complement, 0, 0, 0, 0))
        .unwrap();
    assert_eq!(cpu.get_register(R0), 0b11111111_11111111_11111111_11111110);
}

#[test]
fn test_compare_equal() {
    let mut cpu = create_cpu();
    cpu.set_register(R0, 10);
    cpu.set_register(R1, 10);
    cpu.execute_instruction(&DecodedInstruction::new(Compare, 0, 1, 0, 0))
        .unwrap();
    assert!(cpu.get_status_bit(StatusBit::Zero));
    assert!(!cpu.get_status_bit(StatusBit::Carry));
    assert!(!cpu.get_status_bit(StatusBit::Negative));
}

#[test]
fn test_compare_negative_carry() {
    let mut cpu = create_cpu();
    cpu.set_register(R0, 10);
    cpu.set_register(R1, 11);
    cpu.execute_instruction(&DecodedInstruction::new(Compare, 0, 1, 0, 0))
        .unwrap();
    assert!(!cpu.get_status_bit(StatusBit::Zero));
    assert!(cpu.get_status_bit(StatusBit::Carry));
    assert!(cpu.get_status_bit(StatusBit::Negative));
}

#[test]
fn test_compare_negative() {
    let mut cpu = create_cpu();
    cpu.set_register(R0, 0xfffffff6); // -10
    cpu.set_register(R1, 11);
    cpu.execute_instruction(&DecodedInstruction::new(Compare, 0, 1, 0, 0))
        .unwrap();
    assert!(!cpu.get_status_bit(StatusBit::Zero));
    assert!(!cpu.get_status_bit(StatusBit::Carry));
    assert!(cpu.get_status_bit(StatusBit::Negative));
}

#[test]
fn test_branch_equal() {
    let mut cpu = create_cpu();
    cpu.execute_instruction(&DecodedInstruction::new(BranchEqual, 0, 0, 0, 0xCAFEBABE))
        .unwrap();
    assert_ne!(cpu.get_register(Register::PC), 0xCAFEBABE);
    cpu.set_status_bit(StatusBit::Zero, true);
    cpu.execute_instruction(&DecodedInstruction::new(BranchEqual, 0, 0, 0, 0xCAFEBABE))
        .unwrap();

    assert_eq!(cpu.get_register(Register::PC), 0xCAFEBABE);
}

#[test]
fn test_branch_not_equal() {
    let mut cpu = create_cpu();
    cpu.set_status_bit(StatusBit::Zero, true);
    cpu.execute_instruction(&DecodedInstruction::new(BranchNotEqual, 0, 0, 0, 0xCAFEBABE))
        .unwrap();

    assert_ne!(cpu.get_register(Register::PC), 0xCAFEBABE);

    cpu.set_status_bit(StatusBit::Zero, false);
    cpu.execute_instruction(&DecodedInstruction::new(BranchNotEqual, 0, 0, 0, 0xCAFEBABE))
        .unwrap();
    assert_eq!(cpu.get_register(Register::PC), 0xCAFEBABE);
}

#[test]
fn test_wrapping_arithmetic() {
    let mut cpu = create_cpu();
    cpu.set_register(R0, 0xFFFFFFFF);
    cpu.execute_instruction(&DecodedInstruction::new(Increment, 0, 0, 0, 0))
        .unwrap();
    assert_eq!(cpu.get_register(R0), 0);

    cpu.set_register(R1, 0);
    cpu.execute_instruction(&DecodedInstruction::new(Decrement, 1, 0, 0, 0))
        .unwrap();
    assert_eq!(cpu.get_register(R1), 0xFFFFFFFF);

    cpu.set_register(R2, 0xFFFFFFFF);
    cpu.set_register(R3, 1);
    cpu.execute_instruction(&DecodedInstruction::new(Add, 4, 2, 3, 0))
        .unwrap();
    assert_eq!(cpu.get_register(R4), 0);
}

#[test]
fn test_push_pop_roundtrip() {
    let mut cpu = create_cpu();
    let sp_before = MEMORY_START + 0x1000;
    cpu.set_register(SP, sp_before);
    cpu.set_register(R3, 77);
    cpu.execute_instruction(&DecodedInstruction::new(Push, 3, 0, 0, 0))
        .unwrap();
    assert_eq!(cpu.get_register(SP), sp_before - 4);
    cpu.set_register(R3, 0);
    cpu.execute_instruction(&DecodedInstruction::new(Pop, 3, 0, 0, 0))
        .unwrap();
    assert_eq!(cpu.get_register(R3), 77);
    assert_eq!(cpu.get_register(SP), sp_before);
}

#[test]
fn test_call_then_return_resumes_after_call() {
    // ldi sp, MEMORY_END / call func / ldi r0, 3 / halt / func: ldi r1, 2 / ret
    let source = "    ldi sp, MEMORY_END\n    call func\n    ldi r0, 3\n    halt\nfunc:\n    ldi r1, 2\n    ret\n";
    let bytes = assemble(source).unwrap();
    let mut memory = AddressSpace::default();
    memory.write_all(bytes.as_slice(), MEMORY_START).unwrap();
    let mut cpu = CPU::new(memory);
    cpu.run().unwrap();
    assert!(cpu.halt);
    assert_eq!(cpu.get_register(R1), 2);
    assert_eq!(cpu.get_register(R0), 3);
    assert_eq!(cpu.get_register(SP), MEMORY_END & !3);
}

#[test]
fn test_run_end_to_end() {
    let bytes = assemble("ldi r0, 10\ninc r0\nhalt").unwrap();
    let mut memory = AddressSpace::default();
    memory.write_all(bytes.as_slice(), MEMORY_START).unwrap();
    let mut cpu = CPU::new(memory);
    cpu.run().unwrap();
    assert_eq!(cpu.get_register(R0), 11);
    assert!(cpu.halt);
    assert_eq!(cpu.cycle_counter, 3);
}

#[test]
fn test_console_output_end_to_end() {
    // write byte 0x41 to the console port, then read the port back
    let source = "ldi r0, 65\nldi r1, CONSOLEIO_START\nstb r0, r1\nldb r2, r1\nhalt";
    let bytes = assemble(source).unwrap();
    let mut memory = AddressSpace::default();
    memory.write_all(bytes.as_slice(), MEMORY_START).unwrap();
    let mut cpu = CPU::new(memory);
    cpu.run().unwrap();
    assert_eq!(cpu.memory.console.output, vec![b'A']);
    assert_eq!(cpu.get_register(R2), 0);
}

#[test]
fn test_console_device_directly() {
    let mut console = ConsoleIO::new(CONSOLEIO_START);
    console.write(CONSOLEIO_START, 0x41).unwrap();
    assert_eq!(console.output, vec![0x41]);
    assert_eq!(console.read(CONSOLEIO_START).unwrap(), 0);
    assert_eq!(
        console.write(CONSOLEIO_START + 1, 0x41),
        Err(Fault::AddressFault)
    );
    // a doubleword write is truncated to its most significant byte
    console.write_doubleword(CONSOLEIO_START, 0x42000000).unwrap();
    assert_eq!(console.output, vec![0x41, 0x42]);
}

#[test]
fn test_unmapped_address_faults() {
    let mut cpu = create_cpu();
    let r = cpu.execute_instruction(&DecodedInstruction::new(LoadDirect, 0, 0, 0, 0x50));
    assert_eq!(r, Err(Fault::AddressFault));

    // running a program that touches an unmapped address reports the fault
    let bytes = assemble("ldd r0, 0x50\nhalt").unwrap();
    let mut memory = AddressSpace::default();
    memory.write_all(bytes.as_slice(), MEMORY_START).unwrap();
    let mut cpu = CPU::new(memory);
    assert_eq!(cpu.run(), Err(Fault::AddressFault));
    assert!(!cpu.halt);
}

#[test]
fn test_alignment_fault() {
    let mut cpu = create_cpu();
    let r = cpu.execute_instruction(&DecodedInstruction::new(
        LoadDirect,
        0,
        0,
        0,
        MEMORY_START + 2,
    ));
    assert_eq!(r, Err(Fault::AlignmentFault));
}

#[test]
fn test_divide_by_zero_fault() {
    let mut cpu = create_cpu();
    cpu.set_register(R1, 10);
    let r = cpu.execute_instruction(&DecodedInstruction::new(Divide, 0, 1, 2, 0));
    assert_eq!(r, Err(Fault::DivideByZeroFault));
}

#[test]
fn test_invalid_instruction_fault() {
    let mut cpu = create_cpu();
    let r = cpu.execute_instruction(&DecodedInstruction::new(Invalid, 0, 0, 0, 0));
    assert_eq!(r, Err(Fault::InvalidInstructionFault));
    // a fault leaves the registers untouched
    assert_eq!(cpu.get_register(Register::PC), MEMORY_START);
}

#[test]
fn test_move() {
    let mut cpu = create_cpu();
    cpu.set_register(R7, 99);
    cpu.execute_instruction(&DecodedInstruction::new(Move, 2, 7, 0, 0))
        .unwrap();
    assert_eq!(cpu.get_register(R2), 99);
}

#[test]
fn test_store_and_load() {
    let mut cpu = create_cpu();
    cpu.set_register(R0, 0xAABBCCDD);
    cpu.set_register(R1, MEMORY_START + 0x100);
    cpu.execute_instruction(&DecodedInstruction::new(Store, 0, 1, 0, 0))
        .unwrap();
    cpu.execute_instruction(&DecodedInstruction::new(Load, 2, 1, 0, 0))
        .unwrap();
    assert_eq!(cpu.get_register(R2), 0xAABBCCDD);
    cpu.execute_instruction(&DecodedInstruction::new(LoadByte, 3, 1, 0, 0))
        .unwrap();
    assert_eq!(cpu.get_register(R3), 0xAA);
}
