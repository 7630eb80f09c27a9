use vstd::prelude::*;

use crate::common::CONSTANTS_MAX_COUNT;
use crate::value::Value;

verus! {

/// The instructions of the recipe virtual machine, each encoded as one byte
/// (its position in this list) followed by its operands.
#[derive(Debug, Clone, Copy, PartialEq, Eq, Structural)]
pub enum Opcode {
    Return,
    Negate,
    Add,
    Subtract,
    Multiply,
    Divide,
    Nil,
    True,
    False,
    Not,
    Equal,
    Greater,
    Less,
    Print,
    Pop,
    DefineGlobal,
    GetGlobal,
    SetGlobal,
    GetLocal,
    SetLocal,
    Constant,
    JumpIfFalse,
    Jump,
    Loop,
    Call,
    Function,
}

/// Number of distinct opcodes.
pub const OPCODE_COUNT: u8 = 26;

/// The byte that encodes `op`.
pub open spec fn opcode_byte(op: Opcode) -> u8 {
    match op {
        Opcode::Return => 0,
        Opcode::Negate => 1,
        Opcode::Add => 2,
        Opcode::Subtract => 3,
        Opcode::Multiply => 4,
        Opcode::Divide => 5,
        Opcode::Nil => 6,
        Opcode::True => 7,
        Opcode::False => 8,
        Opcode::Not => 9,
        Opcode::Equal => 10,
        Opcode::Greater => 11,
        Opcode::Less => 12,
        Opcode::Print => 13,
        Opcode::Pop => 14,
        Opcode::DefineGlobal => 15,
        Opcode::GetGlobal => 16,
        Opcode::SetGlobal => 17,
        Opcode::GetLocal => 18,
        Opcode::SetLocal => 19,
        Opcode::Constant => 20,
        Opcode::JumpIfFalse => 21,
        Opcode::Jump => 22,
        Opcode::Loop => 23,
        Opcode::Call => 24,
        Opcode::Function => 25,
    }
}

/// How many operand bytes follow an instruction in the disassembler's reading:
/// constants, locals and calls take one, jumps take two.
pub open spec fn operand_width(op: Opcode) -> nat {
    match op {
        Opcode::Function | Opcode::DefineGlobal | Opcode::GetGlobal | Opcode::SetGlobal
        | Opcode::GetLocal | Opcode::SetLocal | Opcode::Constant | Opcode::Call => 1,
        Opcode::JumpIfFalse | Opcode::Jump | Opcode::Loop => 2,
        _ => 0,
    }
}

impl Opcode {
    /// The byte that encodes this opcode.
    pub fn to_byte(self) -> (byte: u8)
        ensures
            byte == opcode_byte(self),
    {
        match self {
            Opcode::Return => 0,
            Opcode::Negate => 1,
            Opcode::Add => 2,
            Opcode::Subtract => 3,
            Opcode::Multiply => 4,
            Opcode::Divide => 5,
            Opcode::Nil => 6,
            Opcode::True => 7,
            Opcode::False => 8,
            Opcode::Not => 9,
            Opcode::Equal => 10,
            Opcode::Greater => 11,
            Opcode::Less => 12,
            Opcode::Print => 13,
            Opcode::Pop => 14,
            Opcode::DefineGlobal => 15,
            Opcode::GetGlobal => 16,
            Opcode::SetGlobal => 17,
            Opcode::GetLocal => 18,
            Opcode::SetLocal => 19,
            Opcode::Constant => 20,
            Opcode::JumpIfFalse => 21,
            Opcode::Jump => 22,
            Opcode::Loop => 23,
            Opcode::Call => 24,
            Opcode::Function => 25,
        }
    }

    /// The opcode that `byte` encodes, if any.
    pub fn from_byte(byte: u8) -> (op: Option<Opcode>)
        ensures
            byte < OPCODE_COUNT <==> op is Some,
            op matches Some(o) ==> opcode_byte(o) == byte,
    {
        match byte {
            0 => Some(Opcode::Return),
            1 => Some(Opcode::Negate),
            2 => Some(Opcode::Add),
            3 => Some(Opcode::Subtract),
            4 => Some(Opcode::Multiply),
            5 => Some(Opcode::Divide),
            6 => Some(Opcode::Nil),
            7 => Some(Opcode::True),
            8 => Some(Opcode::False),
            9 => Some(Opcode::Not),
            10 => Some(Opcode::Equal),
            11 => Some(Opcode::Greater),
            12 => Some(Opcode::Less),
            13 => Some(Opcode::Print),
            14 => Some(Opcode::Pop),
            15 => Some(Opcode::DefineGlobal),
            16 => Some(Opcode::GetGlobal),
            17 => Some(Opcode::SetGlobal),
            18 => Some(Opcode::GetLocal),
            19 => Some(Opcode::SetLocal),
            20 => Some(Opcode::Constant),
            21 => Some(Opcode::JumpIfFalse),
            22 => Some(Opcode::Jump),
            23 => Some(Opcode::Loop),
            24 => Some(Opcode::Call),
            25 => Some(Opcode::Function),
            _ => None,
        }
    }
}

/// Decoding the byte of an opcode gives that opcode back.
pub proof fn law_opcode_bytes_round_trip(op: Opcode)
    ensures
        opcode_byte(op) < OPCODE_COUNT,
        forall|other: Opcode| opcode_byte(other) == opcode_byte(op) ==> other == op,
{
}

/// A stream of bytecode with the source line of each byte, and a fixed table of
/// constants of which the first `constants_count` are in use.
#[derive(Debug)]
pub struct Code {
    pub code: Vec<u8>,
    pub lines: Vec<usize>,
    pub constants: Vec<Value>,
    pub constants_count: usize,
}

/// How an instruction reads, for a listing of the code.
#[derive(Debug, Clone, Copy, PartialEq, Eq, Structural)]
pub enum Operand {
    NoOperand,
    Constant(u8),
    Slot(u8),
    Jump(u16),
}

/// One instruction of a listing: what it is, its line unless it is the line of
/// the byte before, its operand, and where the next instruction starts.
#[derive(Debug, Clone, Copy, PartialEq, Eq, Structural)]
pub struct InstructionText {
    pub opcode: Opcode,
    pub line: Option<usize>,
    pub operand: Operand,
    pub next_offset: usize,
}

impl Code {
    /// The code's parts agree: one line per byte, and a constant table of the
    /// fixed size of which no more than all entries are in use.
    pub open spec fn wf(&self) -> bool {
        &&& self.code@.len() == self.lines@.len()
        &&& self.constants@.len() == CONSTANTS_MAX_COUNT
        &&& self.constants_count <= CONSTANTS_MAX_COUNT
    }

    /// Empty code whose constant table holds only `nil`.
    pub fn new() -> (code: Self)
        ensures
            code.wf(),
            code.code@.len() == 0,
            code.lines@.len() == 0,
            code.constants_count == 0,
            forall|i: int| 0 <= i < CONSTANTS_MAX_COUNT ==> code.constants@[i] == Value::Nil,
    {
        let mut constants: Vec<Value> = Vec::new();
        let mut i: usize = 0;
        while i < CONSTANTS_MAX_COUNT
            invariant
                i <= CONSTANTS_MAX_COUNT,
                constants@.len() == i,
                forall|k: int| 0 <= k < i ==> constants@[k] == Value::Nil,
            decreases CONSTANTS_MAX_COUNT - i,
        {
            constants.push(Value::Nil);
            i = i + 1;
        }
        Self { code: Vec::new(), lines: Vec::new(), constants, constants_count: 0 }
    }

    /// Appends `byte`, which comes from source line `line`.
    pub fn write(&mut self, byte: u8, line: usize)
        ensures
            final(self).code@ == old(self).code@.push(byte),
            final(self).lines@ == old(self).lines@.push(line),
            final(self).constants == old(self).constants,
            final(self).constants_count == old(self).constants_count,
    {
        self.code.push(byte);
        self.lines.push(line);
    }

    /// Stores `value` in the next free constant slot and returns its index, or
    /// returns `None` when the table is full.
    pub fn add_constant(&mut self, value: Value) -> (index: Option<u8>)
        requires
            old(self).wf(),
        ensures
            final(self).wf(),
            final(self).code == old(self).code,
            final(self).lines == old(self).lines,
            old(self).constants_count == CONSTANTS_MAX_COUNT ==> index is None && *final(self)
                == *old(self),
            old(self).constants_count < CONSTANTS_MAX_COUNT ==> {
                &&& index == Some(old(self).constants_count as u8)
                &&& final(self).constants_count == old(self).constants_count + 1
                &&& final(self).constants@ == old(self).constants@.update(
                    old(self).constants_count as int,
                    value,
                )
            },
    {
        if self.constants_count == CONSTANTS_MAX_COUNT {
            return None;
        }
        self.constants[self.constants_count] = value;
        self.constants_count += 1;
        Some((self.constants_count - 1) as u8)
    }

    /// Whether the code holds, at `offset`, a valid opcode with all of its
    /// operand bytes, so that the instruction there can be listed.
    pub fn can_list(&self, offset: usize) -> (r: bool)
        ensures
            r == (offset < self.code@.len() && self.code@[offset as int] < OPCODE_COUNT && forall|
                o: Opcode,
            |
                opcode_byte(o) == self.code@[offset as int] ==> offset + operand_width(o)
                    < self.code@.len()),
    {
        if offset >= self.code.len() {
            return false;
        }
        match Opcode::from_byte(self.code[offset]) {
            None => false,
            Some(op) => {
                proof {
                    law_opcode_bytes_round_trip(op);
                }
                let width: usize = match op {
                    Opcode::Function | Opcode::DefineGlobal | Opcode::GetGlobal
                    | Opcode::SetGlobal | Opcode::GetLocal | Opcode::SetLocal | Opcode::Constant
                    | Opcode::Call => 1,
                    Opcode::JumpIfFalse | Opcode::Jump | Opcode::Loop => 2,
                    _ => 0,
                };
                width < self.code.len() - offset
            },
        }
    }

    /// How the instruction at `offset` reads; the code there must hold a valid
    /// opcode and all of its operand bytes.
    pub fn instruction_at(&self, offset: usize) -> (text: InstructionText)
        requires
            self.wf(),
            offset < self.code@.len(),
            self.code@[offset as int] < OPCODE_COUNT,
            forall|o: Opcode|
                opcode_byte(o) == self.code@[offset as int] ==> offset + operand_width(o)
                    < self.code@.len(),
        ensures
            opcode_byte(text.opcode) == self.code@[offset as int],
            text.line == if offset > 0 && self.lines@[offset as int] == self.lines@[offset - 1] {
                None::<usize>
            } else {
                Some(self.lines@[offset as int])
            },
            text.next_offset == offset + 1 + operand_width(text.opcode),
            text.operand == if operand_width(text.opcode) == 0 {
                Operand::NoOperand
            } else if operand_width(text.opcode) == 1 {
                if text.opcode == Opcode::GetLocal || text.opcode == Opcode::SetLocal
                    || text.opcode == Opcode::Call {
                    Operand::Slot(self.code@[offset + 1])
                } else {
                    Operand::Constant(self.code@[offset + 1])
                }
            } else {
                Operand::Jump(
                    (self.code@[offset + 1] as int + 256 * self.code@[offset + 2] as int) as u16,
                )
            },
    {
        let _length = self.code.len();
        let byte = self.code[offset];
        let line = self.lines[offset];
        let shown_line = if offset > 0 && line == self.lines[offset - 1] {
            None
        } else {
            Some(line)
        };
        let opcode = match Opcode::from_byte(byte) {
            Some(op) => op,
            None => {
                proof {
                    assert(false);
                }
                Opcode::Return
            },
        };
        proof {
            law_opcode_bytes_round_trip(opcode);
            assert(offset + operand_width(opcode) < self.code@.len());
        }
        match opcode {
            Opcode::Function | Opcode::DefineGlobal | Opcode::GetGlobal | Opcode::SetGlobal
            | Opcode::Constant => InstructionText {
                opcode,
                line: shown_line,
                operand: Operand::Constant(self.code[offset + 1]),
                next_offset: offset + 2,
            },
            Opcode::GetLocal | Opcode::SetLocal | Opcode::Call => InstructionText {
                opcode,
                line: shown_line,
                operand: Operand::Slot(self.code[offset + 1]),
                next_offset: offset + 2,
            },
            Opcode::JumpIfFalse | Opcode::Jump | Opcode::Loop => {
                let low = self.code[offset + 1] as u16;
                let high = self.code[offset + 2] as u16;
                InstructionText {
                    opcode,
                    line: shown_line,
                    operand: Operand::Jump(low + 256 * high),
                    next_offset: offset + 3,
                }
            },
            _ => InstructionText {
                opcode,
                line: shown_line,
                operand: Operand::NoOperand,
                next_offset: offset + 1,
            },
        }
    }
}

} // verus!
