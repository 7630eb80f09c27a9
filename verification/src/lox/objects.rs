use vstd::prelude::*;

use crate::lox::chunk::Chunk;
use crate::value::Value;

verus! {

/// What a compiled function is: the top-level script, a plain function, a
/// method, or a class initialiser.
#[derive(Debug, Copy, Clone, PartialEq, Eq, Structural)]
pub enum FunctionKind {
    Script,
    Function,
    Method,
    Initializer,
}

/// A compiled function of the object-oriented dialect.
#[derive(Debug)]
pub struct FunctionObject {
    pub arity: u8,
    pub chunk: Chunk,
    pub name: String,
    pub kind: FunctionKind,
    pub upvalue_count: usize,
}

impl FunctionObject {
    /// A function of kind `kind` named `name`, with no parameters, no
    /// captured variables and an empty chunk.
    pub fn new(name: String, kind: FunctionKind) -> (f: Self)
        ensures
            f.name == name,
            f.kind == kind,
            f.arity == 0,
            f.upvalue_count == 0,
            f.chunk.wf(),
            f.chunk.code@.len() == 0,
            f.chunk.constants_count == 0,
    {
        let chunk = Chunk::new();
        Self { chunk, name, kind, arity: 0, upvalue_count: 0 }
    }
}

/// A variable captured by a closure: still on the stack at an index, or
/// moved off the stack with its value.
#[derive(Debug)]
pub enum UpvalueObject {
    Open(usize),
    Closed(Value),
}

impl UpvalueObject {
    /// A captured variable that still lives on the stack at `stack_index`.
    pub fn new(stack_index: usize) -> (u: Self)
        ensures
            u == UpvalueObject::Open(stack_index),
    {
        Self::Open(stack_index)
    }
}

} // verus!
