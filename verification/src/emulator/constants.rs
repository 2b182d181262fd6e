//! The address map: main memory occupies a contiguous range at a fixed base,
//! and the console device a separate eight-byte window; every other address
//! is unmapped and faults.

use vstd::prelude::*;

verus! {

/// The base address of main memory, where programs are loaded and where
/// execution begins.
pub const MEMORY_START: u32 = 0x10_0000;

/// How many bytes of main memory the machine has.
pub const MEMORY_SIZE: u32 = 0x10_0000;

/// The last byte address of main memory (inclusive).
pub const MEMORY_END: u32 = MEMORY_START + MEMORY_SIZE - 1;

/// The base address of the console device's eight-byte window; a byte
/// written at this address is one character of output.
pub const CONSOLEIO_START: u32 = 0x20_0000;

/// The last byte address of the console window (inclusive).
pub const CONSOLEIO_END: u32 = CONSOLEIO_START + 7;

} // verus!
