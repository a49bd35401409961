//! A single-pass bytecode compiler and stack machine for a small dynamically
//! typed scripting language.
//!
//! Source text is scanned into tokens, compiled straight into a [`chunk::Chunk`]
//! of bytecode, and executed one instruction at a time by [`vm::Vm`].

pub mod chunk;
pub mod compiler;
pub mod debug;
pub mod scanner;
pub mod table;
pub mod value;
pub mod vm;
