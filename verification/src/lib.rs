//! Compiler front end and code generator for a small object-oriented
//! teaching language that targets a stack-based virtual machine, together
//! with the companion assembler for the machine's native instruction set.
//!
//! The pipeline: a token stream is parsed into a class declaration tree,
//! symbol tables resolve every identifier to a storage segment and slot,
//! and the code generator lowers the tree into a flat sequence of
//! stack-machine instructions.

pub mod assembler;
pub mod ast;
pub mod errors;
pub mod generator;
pub mod laws;
pub mod parser;
pub mod symbols;
pub mod text;
pub mod tokenizer;
pub mod vm;
