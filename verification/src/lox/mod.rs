//! The object-oriented dialect: its scanner, tokens, chunks, precedence table,
//! compiler state and virtual machine.

pub mod scanner;
pub mod chunk;
pub mod compiler;
pub mod objects;
pub mod precedence;
pub mod token;
pub mod vm;
