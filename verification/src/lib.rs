//! A bytecode interpreter for a cooking-themed scripting language.

pub mod common;
pub mod lexical;
pub mod lox;
pub mod scanner;
pub mod compiler;
pub mod rules;
pub mod strings;
pub mod error;
pub mod chunk;
pub mod function;
pub mod value;
pub mod native_functions;
pub mod vm;
