//! Tests of the parser and the two-pass assembler: alignment helpers,
//! register and literal parsing, label resolution, and the all-or-nothing
//! error paths.

use mycpu::assembler::codegen::{align_down, align_up, assemble};
use mycpu::assembler::parser::{parse_numeric_literal, parse_register_name};

#[test]
fn test_align_unchanged() {
    let aligned = 16u32;
    assert_eq!(aligned, align_up(aligned));
    assert_eq!(aligned, align_down(aligned));
}

#[test]
fn test_align_up() {
    let n = 17u32;
    assert_eq!(20, align_up(n));
}

#[test]
fn test_align_down() {
    let n = 17u32;
    assert_eq!(16, align_down(n));
}

#[test]
fn test_register_names() {
    assert_eq!(parse_register_name("r0"), Some(0));
    assert_eq!(parse_register_name("r15"), Some(15));
    assert_eq!(parse_register_name("pc"), Some(16));
    assert_eq!(parse_register_name("sp"), Some(17));
    assert_eq!(parse_register_name("sr"), Some(18));
    assert_eq!(parse_register_name("R0"), None);
    assert_eq!(parse_register_name("r16"), None);
    assert_eq!(parse_register_name(""), None);
}

#[test]
fn test_numeric_literals() {
    assert_eq!(parse_numeric_literal("0"), Some(0));
    assert_eq!(parse_numeric_literal("1337"), Some(1337));
    assert_eq!(parse_numeric_literal("4294967295"), Some(0xFFFF_FFFF));
    assert_eq!(parse_numeric_literal("4294967296"), None);
    assert_eq!(parse_numeric_literal("0x1F"), Some(31));
    assert_eq!(parse_numeric_literal("0xffffFFFF"), Some(0xFFFF_FFFF));
    assert_eq!(parse_numeric_literal("0x"), None);
    assert_eq!(parse_numeric_literal("0xZZ"), None);
    assert_eq!(parse_numeric_literal("abc"), None);
    assert_eq!(parse_numeric_literal(""), None);
}

#[test]
fn test_assemble_single_instruction() {
    let bytes = assemble("inc r3").unwrap();
    assert_eq!(bytes, vec![0x10, 3, 0, 0, 0, 0, 0, 0]);
}

#[test]
fn test_assemble_is_deterministic() {
    let source = "start:\n    ldi r0, 10\n    inc r0 // bump\n    jmp start\n    halt\n";
    let first = assemble(source).unwrap();
    let second = assemble(source).unwrap();
    assert_eq!(first, second);
}

#[test]
fn test_forward_reference_resolves() {
    // `end` is declared after its reference; the jump operand must be the
    // address of the halt: the program base plus two 8-byte instructions.
    let bytes = assemble("jmp end\nnop\nend:\nhalt").unwrap();
    assert_eq!(bytes.len(), 24);
    assert_eq!(&bytes[4..8], &[0x00, 0x10, 0x00, 0x10]);
}

#[test]
fn test_backward_reference_resolves() {
    let bytes = assemble("loop:\nnop\njmp loop").unwrap();
    // the jump operand is the program base address
    assert_eq!(&bytes[12..16], &[0x00, 0x10, 0x00, 0x00]);
}

#[test]
fn test_duplicate_label_rejected() {
    assert!(assemble("a:\nnop\na:\nhalt").is_none());
}

#[test]
fn test_undeclared_label_rejected() {
    assert!(assemble("jmp nowhere\nhalt").is_none());
}

#[test]
fn test_unknown_mnemonic_rejected() {
    assert!(assemble("frobnicate r0").is_none());
}

#[test]
fn test_wrong_arity_rejected() {
    assert!(assemble("inc r0, r1").is_none());
}

#[test]
fn test_bad_register_rejected() {
    assert!(assemble("inc r99").is_none());
}

#[test]
fn test_reserved_labels() {
    // PROGRAM_END is the first address past the two assembled instructions.
    let bytes = assemble("ldi r0, PROGRAM_END\nhalt").unwrap();
    assert_eq!(&bytes[4..8], &[0x00, 0x10, 0x00, 0x10]);
    // CONSOLEIO_START is the console window's base.
    let bytes = assemble("ldi r1, CONSOLEIO_START\nhalt").unwrap();
    assert_eq!(&bytes[4..8], &[0x00, 0x20, 0x00, 0x00]);
    // MEMORY_END is the memory region's last address, 4-byte aligned down.
    let bytes = assemble("ldi r2, MEMORY_END\nhalt").unwrap();
    assert_eq!(&bytes[4..8], &[0x00, 0x1F, 0xFF, 0xFC]);
}

#[test]
fn test_label_declaration_emits_no_bytes() {
    let bytes = assemble("a:\nb:\nnop").unwrap();
    assert_eq!(bytes.len(), 8);
}

#[test]
fn test_hex_operand() {
    let bytes = assemble("ldi r0, 0xAABBCCDD").unwrap();
    assert_eq!(bytes, vec![0x30, 0, 0, 0, 0xAA, 0xBB, 0xCC, 0xDD]);
}

#[test]
fn test_three_register_form() {
    let bytes = assemble("add r1, r2, r3").unwrap();
    assert_eq!(bytes, vec![0x12, 1, 2, 3, 0, 0, 0, 0]);
}
