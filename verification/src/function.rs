use vstd::prelude::*;

use crate::chunk::Code;

verus! {

/// Whether a function is the top-level script or a declared function.
#[derive(Debug, Copy, Clone, PartialEq, Eq, Structural)]
pub enum FunctionKind {
    Script,
    Function,
}

/// A compiled function: its name, how many parameters it takes, its code, its
/// kind, and where its code starts in the byte stream the recipe machine runs.
#[derive(Debug)]
pub struct Function {
    pub name: String,
    pub arity: u8,
    pub chunk: Code,
    pub kind: FunctionKind,
    pub ip_start: usize,
}

impl Function {
    /// A function with no parameters and empty code.
    pub fn new(name: String, kind: FunctionKind) -> (f: Self)
        ensures
            f.name == name,
            f.kind == kind,
            f.arity == 0,
            f.ip_start == 0,
            f.chunk.code@.len() == 0,
            f.chunk.lines@.len() == 0,
            f.chunk.constants_count == 0,
            f.chunk.wf(),
    {
        let chunk = Code::new();
        Self { chunk, name, kind, arity: 0, ip_start: 0 }
    }
}

} // verus!
