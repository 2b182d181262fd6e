//! Tests of the word-addressed memory.

use mycpu::memory::Memory;

#[test]
fn test_addr_to_index_pass() {
    let mem = Memory::new(0);
    assert_eq!(mem.address_to_index(0), 0);
    assert_eq!(mem.address_to_index(4), 1);
    assert_eq!(mem.address_to_index(16), 4);
}

#[test]
fn test_write_instruction() {
    let mut mem = Memory::new(8);
    mem.write_instruction(8, [10, 20]);
    assert_eq!(mem.data, [0, 0, 10, 20, 0, 0, 0, 0]);
}

#[test]
fn memory_test_write() {
    let mut mem = Memory::new(8);
    mem.write(8, 10);
    assert_eq!(mem.data, [0, 0, 10, 0, 0, 0, 0, 0]);
}

#[test]
fn memory_test_read_instruction() {
    let mem = Memory {
        data: vec![0, 0, 10, 20, 0, 0, 0, 0],
    };
    assert_eq!(mem.read_instruction(8), [10, 20]);
}

#[test]
fn memory_test_read() {
    let mem = Memory {
        data: vec![0, 0, 10, 20, 0, 0, 0, 0],
    };
    assert_eq!(mem.read(0), 0);
    assert_eq!(mem.read(4), 0);
    assert_eq!(mem.read(8), 10);
    assert_eq!(mem.read(12), 20);
}
