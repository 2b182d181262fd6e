//! A small instruction-set architecture: a fixed-width binary instruction
//! encoding, a two-pass assembler from textual assembly to that encoding, and
//! a virtual CPU that executes it against a memory-mapped address bus.

pub mod assembler;
pub mod bf2asm;
pub mod common;
pub mod cpu;
pub mod emulator;
pub mod instruction;
pub mod memory;
