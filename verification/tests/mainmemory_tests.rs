//! Tests of the main-memory device.

use mycpu::emulator::mainmemory::MainMemory;
use mycpu::emulator::memory::{Fault, Memory};

#[test]
fn mainmemory_test_write() {
    let mut mem = MainMemory::new(0, 8);
    mem.write(7, 10).unwrap();
    assert_eq!(mem.data, [0, 0, 0, 0, 0, 0, 0, 10]);
}

#[test]
fn test_write_doubleword() {
    let mut mem = MainMemory::new(0, 8);
    mem.write_doubleword(4, 0xAABBCCDD).unwrap();
    assert_eq!(mem.data, [0, 0, 0, 0, 0xAA, 0xBB, 0xCC, 0xDD]);
}

#[test]
fn mainmemory_test_read_instruction() {
    let mem = MainMemory {
        offset: 0,
        data: vec![0, 0, 10, 20, 0, 0, 0, 0],
    };
    assert_eq!(mem.read_all(0, 8).unwrap(), vec![0, 0, 10, 20, 0, 0, 0, 0]);
}

#[test]
fn mainmemory_test_read() {
    let mem = MainMemory {
        offset: 0,
        data: vec![0, 0, 0, 0, 0xAA, 0xBB, 0xCC, 0xDD],
    };
    assert_eq!(mem.read(4).unwrap(), 0xAA);
    assert_eq!(mem.read(5).unwrap(), 0xBB);
    assert_eq!(mem.read(6).unwrap(), 0xCC);
    assert_eq!(mem.read(7).unwrap(), 0xDD);
}

#[test]
fn test_read_doubleword() {
    let mem = MainMemory {
        offset: 0,
        data: vec![0, 0, 0, 0, 0xAA, 0xBB, 0xCC, 0xDD],
    };
    assert_eq!(mem.read_doubleword(4).unwrap(), 0xAABBCCDD);
}

#[test]
fn test_device_faults() {
    let mut mem = MainMemory::new(0x100, 8);
    assert_eq!(mem.read(0x50), Err(Fault::AddressFault));
    assert_eq!(mem.read(0x108), Err(Fault::AddressFault));
    assert_eq!(mem.read_doubleword(0x102), Err(Fault::AlignmentFault));
    assert_eq!(mem.write(0x50, 1), Err(Fault::AddressFault));
    assert_eq!(mem.write_doubleword(0x106, 1), Err(Fault::AlignmentFault));
    assert_eq!(mem.read_instruction(0x104), Err(Fault::AlignmentFault));
    assert_eq!(mem.size(), 8);
}

#[test]
fn test_write_all_and_read_instruction() {
    let mut mem = MainMemory::new(0x100, 16);
    mem.write_all(&[1, 2, 3, 4, 5, 6, 7, 8], 0x100).unwrap();
    assert_eq!(mem.read_instruction(0x100).unwrap(), [1, 2, 3, 4, 5, 6, 7, 8]);
    assert_eq!(
        mem.write_all(&[1, 2, 3, 4], 0x10E),
        Err(Fault::AddressFault)
    );
}
