//! Tests of the tape-language transpiler: parsing with and without the
//! peephole fold, the generated text, and its round trip through the
//! assembler and the engine.

use mycpu::assembler::codegen::assemble;
use mycpu::bf2asm::{generate, parse, u32_to_dec, BFError, BFToken};
use mycpu::emulator::constants::MEMORY_START;
use mycpu::emulator::cpu::CPU;
use mycpu::emulator::memory::{AddressSpace, Memory};

#[test]
fn test_parse_folds_adjacent_changes() {
    let tokens = parse("+++.", true).unwrap();
    assert_eq!(tokens, vec![BFToken::ModValue(3), BFToken::Output]);
}

#[test]
fn test_parse_unfolded() {
    let tokens = parse("++", false).unwrap();
    assert_eq!(tokens, vec![BFToken::ModValue(1), BFToken::ModValue(1)]);
}

#[test]
fn test_parse_mixed_changes() {
    let tokens = parse("+->><", true).unwrap();
    assert_eq!(tokens, vec![BFToken::ModValue(0), BFToken::ModPointer(1)]);
}

#[test]
fn test_parse_loop() {
    let tokens = parse("[-]", true).unwrap();
    assert_eq!(tokens, vec![BFToken::Loop(vec![BFToken::ModValue(-1)])]);
}

#[test]
fn test_parse_ignores_other_characters() {
    let tokens = parse("a + b\n", true).unwrap();
    assert_eq!(tokens, vec![BFToken::ModValue(1)]);
}

#[test]
fn test_parse_unbalanced_open() {
    match parse("[+", true) {
        Err(BFError::Parser(m)) => assert_eq!(m, "Unbalanced number of [ or ]"),
        _ => panic!("an unclosed bracket must fail the parse"),
    }
}

#[test]
fn test_parse_unbalanced_close() {
    match parse("]", true) {
        Err(BFError::Parser(m)) => assert_eq!(m, "Mooh"),
        _ => panic!("a stray closing bracket must fail the parse"),
    }
}

#[test]
fn test_u32_to_dec() {
    assert_eq!(u32_to_dec(0), "0");
    assert_eq!(u32_to_dec(7), "7");
    assert_eq!(u32_to_dec(1234567890), "1234567890");
    assert_eq!(u32_to_dec(0xFFFF_FFFF), "4294967295");
}

#[test]
fn test_generate_empty() {
    let text = generate(&vec![]);
    assert_eq!(text, "    ldi r0, PROGRAM_END\n    halt\n");
}

#[test]
fn test_generate_loop_labels() {
    let tokens = parse("[-]", true).unwrap();
    let text = generate(&tokens);
    assert_eq!(
        text,
        "    ldi r0, PROGRAM_END\n\
         label_0_before:\n\
         \x20   cmpi r1, 0\n\
         \x20   breq label_0_after\n\
         \x20   subi r1, r1, 1\n\
         \x20   jmp label_0_before\n\
         label_0_after:\n\
         \x20   halt\n"
    );
}

#[test]
fn test_generate_pointer_moves() {
    let tokens = parse(">>", true).unwrap();
    let text = generate(&tokens);
    assert_eq!(
        text,
        "    ldi r0, PROGRAM_END\n\
         \x20   stb r1, r0\n\
         \x20   addi r0, r0, 2\n\
         \x20   ldb r1, r0\n\
         \x20   halt\n"
    );
}

#[test]
fn test_generated_text_assembles_and_runs() {
    // increment the current cell twice and print it twice
    let tokens = parse("++..", true).unwrap();
    let text = generate(&tokens);
    let bytes = assemble(text.as_str()).unwrap();
    let mut memory = AddressSpace::default();
    memory.write_all(bytes.as_slice(), MEMORY_START).unwrap();
    let mut cpu = CPU::new(memory);
    cpu.run().unwrap();
    assert!(cpu.halt);
    assert_eq!(cpu.memory.console.output, vec![2, 2]);
}
