//! Pieces shared by the assembler and the execution engine: the instruction
//! catalog, the fixed eight-byte instruction encoding, and byte/word helpers.

pub mod encoding;
pub mod instruction;
pub mod util;
