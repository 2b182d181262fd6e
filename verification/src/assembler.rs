//! The assembler: tokenizer, mnemonic matcher, parser, and the two-pass
//! label-resolving code generator.

pub mod codegen;
pub mod matcher;
pub mod parser;
pub mod tokenizer;
