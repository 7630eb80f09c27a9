use vstd::prelude::*;

use crate::common::U8_COUNT_USIZE;
use crate::value::Value;

verus! {

/// The instructions of the object-oriented virtual machine, with their operands.
#[derive(Debug, Clone, Copy, PartialEq, Eq, Structural)]
pub enum Operation {
    Return,
    Negate,
    Add,
    Subtract,
    Multiply,
    Divide,
    Nil,
    True,
    False,
    Not,
    Equal,
    Greater,
    Less,
    Print,
    Pop,
    CloseUpvalue,
    Inherit,
    Call(u8),
    Constant(u8),
    Class(u8),
    DefineGlobal(u8),
    GetGlobal(u8),
    SetGlobal(u8),
    GetLocal(u8),
    SetLocal(u8),
    GetProperty(u8),
    SetProperty(u8),
    GetUpvalue(u8),
    SetUpvalue(u8),
    JumpIfFalse(u8),
    Jump(u8),
    Loop(u8),
    Closure(u8),
    ClosureIsLocalByte(bool),
    ClosureIndexByte(u8),
    Method(u8),
    Invoke(u8, u8),
    SuperInvoke(u8, u8),
    GetSuper(u8),
}

/// How an operation reads in a listing of a chunk: by itself, with the
/// constant it names, with the stack slot it uses, or with its jump distance
/// and whether the jump goes backwards.
#[derive(Debug, Clone, Copy, PartialEq, Eq, Structural)]
pub enum OperationText {
    Simple,
    Constant(u8),
    Slot(u8),
    Jump(u8, bool),
}

/// How `op` reads in a listing.
pub open spec fn operation_text(op: Operation) -> OperationText {
    match op {
        Operation::Constant(i) | Operation::DefineGlobal(i) | Operation::GetGlobal(i)
        | Operation::SetGlobal(i) => OperationText::Constant(i),
        Operation::GetLocal(i) | Operation::SetLocal(i) => OperationText::Slot(i),
        Operation::JumpIfFalse(j) | Operation::Jump(j) => OperationText::Jump(j, false),
        Operation::Loop(j) => OperationText::Jump(j, true),
        _ => OperationText::Simple,
    }
}

/// Most constants a chunk may hold.
pub const CONSTANTS_MAX: usize = 256;

/// A sequence of operations with the source line of each, and a fixed table of
/// constant slots of which the first `constants_count` are filled.
#[derive(Debug)]
pub struct Chunk {
    pub code: Vec<Operation>,
    pub lines: Vec<usize>,
    pub constants: Vec<Option<Value>>,
    pub constants_count: usize,
}

impl Chunk {
    /// The chunk's parts agree: one line per operation, a constant table of the
    /// fixed size, filled exactly in its first `constants_count` slots.
    pub open spec fn wf(&self) -> bool {
        &&& self.code@.len() == self.lines@.len()
        &&& self.constants@.len() == CONSTANTS_MAX
        &&& self.constants_count <= CONSTANTS_MAX
        &&& forall|i: int| 0 <= i < CONSTANTS_MAX ==> (self.constants@[i] is Some <==> i
            < self.constants_count)
    }

    /// An empty chunk with no constants.
    pub fn new() -> (chunk: Self)
        ensures
            chunk.wf(),
            chunk.code@.len() == 0,
            chunk.lines@.len() == 0,
            chunk.constants_count == 0,
    {
        let mut constants: Vec<Option<Value>> = Vec::new();
        let mut i: usize = 0;
        while i < CONSTANTS_MAX
            invariant
                i <= CONSTANTS_MAX,
                constants@.len() == i,
                forall|k: int| 0 <= k < i ==> constants@[k] is None,
            decreases CONSTANTS_MAX - i,
        {
            constants.push(None);
            i = i + 1;
        }
        Self { code: Vec::new(), lines: Vec::new(), constants, constants_count: 0 }
    }

    /// Appends `operation`, which comes from source line `line`.
    pub fn write(&mut self, operation: Operation, line: usize)
        ensures
            final(self).code@ == old(self).code@.push(operation),
            final(self).lines@ == old(self).lines@.push(line),
            final(self).constants == old(self).constants,
            final(self).constants_count == old(self).constants_count,
    {
        self.code.push(operation);
        self.lines.push(line);
    }

    /// Adds a constant to the chunk and returns its index, or returns `None`
    /// when adding it would overflow the constant table.
    pub fn add_constant(&mut self, value: Value) -> (index: Option<u8>)
        requires
            old(self).wf(),
        ensures
            final(self).wf(),
            final(self).code == old(self).code,
            final(self).lines == old(self).lines,
            old(self).constants_count == U8_COUNT_USIZE ==> index is None && *final(self)
                == *old(self),
            old(self).constants_count < U8_COUNT_USIZE ==> {
                &&& index == Some(old(self).constants_count as u8)
                &&& final(self).constants_count == old(self).constants_count + 1
                &&& final(self).constants@ == old(self).constants@.update(
                    old(self).constants_count as int,
                    Some(value),
                )
            },
    {
        if self.constants_count == U8_COUNT_USIZE {
            return None;
        }
        let index = self.constants_count;
        self.constants[index] = Some(value);
        self.constants_count += 1;
        Some(index as u8)
    }

    /// How the operation at `offset` reads in a listing.
    pub fn listing(&self, offset: usize) -> (text: OperationText)
        requires
            offset < self.code@.len(),
        ensures
            text == operation_text(self.code@[offset as int]),
    {
        match self.code[offset] {
            Operation::Constant(i) | Operation::DefineGlobal(i) | Operation::GetGlobal(i)
            | Operation::SetGlobal(i) => OperationText::Constant(i),
            Operation::GetLocal(i) | Operation::SetLocal(i) => OperationText::Slot(i),
            Operation::JumpIfFalse(j) | Operation::Jump(j) => OperationText::Jump(j, false),
            Operation::Loop(j) => OperationText::Jump(j, true),
            _ => OperationText::Simple,
        }
    }

    /// The line to show beside the operation at `offset` in a listing: none
    /// when it is the line of the operation before.
    pub fn shown_line(&self, offset: usize) -> (line: Option<usize>)
        requires
            self.wf(),
            offset < self.code@.len(),
        ensures
            line == if offset > 0 && self.lines@[offset as int] == self.lines@[offset - 1] {
                None::<usize>
            } else {
                Some(self.lines@[offset as int])
            },
    {
        let line = self.lines[offset];
        if offset > 0 && line == self.lines[offset - 1] {
            None
        } else {
            Some(line)
        }
    }
}

} // verus!
