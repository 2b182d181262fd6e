//! The execution side of the system: the address map, the memory-mapped bus
//! with its two devices, and the fetch-decode-execute engine.

pub mod consoleio;
pub mod constants;
pub mod cpu;
pub mod instruction;
pub mod mainmemory;
pub mod memory;
