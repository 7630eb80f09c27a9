use vstd::prelude::*;
use vstd::string::StringExecFns;

use crate::error::{decimal_text, error_message, push_decimal, ChefError};
use crate::lox::chunk::{Chunk, Operation};
use crate::value::{
    equality_outcome, magnitude, number_lt, sign_is_negative, spec_falsey, ArithmeticOperation,
    Value, SIGN_BIT,
};

verus! {

/// Line on which a runtime error occurred.
pub type RuntimeErrorLine = usize;

/// How interpreting a chunk ended.
#[derive(Debug)]
pub enum InterpretResult {
    Success,
    CompileError,
    RuntimeError(RuntimeErrorLine, String),
}

/// What the machine asks of its driver after one operation.
#[derive(Debug)]
pub enum Step {
    /// Go on with the next operation.
    Continue,
    /// Show the value, then go on with the next operation.
    Print(Value),
    /// Combine the two numbers (given by their bit patterns, left operand
    /// first), push the resulting number with `push_number`, then go on.
    Arithmetic(ArithmeticOperation, u64, u64),
    /// Interpretation is over, with this result.
    Finished(InterpretResult),
}

/// How interpreting ended, with error messages as text.
pub enum ResultView {
    Success,
    CompileError,
    RuntimeError(usize, Seq<char>),
}

/// What the machine asks of its driver, with error messages as text.
pub enum StepView {
    Continue,
    Print(Value),
    Arithmetic(ArithmeticOperation, u64, u64),
    Finished(ResultView),
}

/// The text view of a result.
pub open spec fn result_view(r: InterpretResult) -> ResultView {
    match r {
        InterpretResult::Success => ResultView::Success,
        InterpretResult::CompileError => ResultView::CompileError,
        InterpretResult::RuntimeError(line, message) => ResultView::RuntimeError(line, message@),
    }
}

/// The text view of a step.
pub open spec fn step_view(s: Step) -> StepView {
    match s {
        Step::Continue => StepView::Continue,
        Step::Print(v) => StepView::Print(v),
        Step::Arithmetic(op, a, b) => StepView::Arithmetic(op, a, b),
        Step::Finished(r) => StepView::Finished(result_view(r)),
    }
}

/// A runtime error on `line` with message `message`.
pub open spec fn fails(line: usize, message: Seq<char>) -> StepView {
    StepView::Finished(ResultView::RuntimeError(line, message))
}

/// The name held in constant slot `index`, when that slot holds a string.
pub open spec fn name_constant(constants: Seq<Option<Value>>, index: u8) -> Option<String> {
    if (index as int) < constants.len() {
        match constants[index as int] {
            Some(Value::String(name)) => Some(name),
            _ => None,
        }
    } else {
        None
    }
}

/// The position of the global named `name`, or -1 when there is none.
pub open spec fn global_index(globals: Seq<(String, Value)>, name: Seq<char>) -> int
    decreases globals.len(),
{
    if globals.len() == 0 {
        -1
    } else if globals.last().0@ == name {
        globals.len() - 1
    } else {
        global_index(globals.drop_last(), name)
    }
}

/// The globals after binding `name` to `value`: the value of an existing
/// global of that name is replaced, otherwise a new global is added.
pub open spec fn globals_insert(globals: Seq<(String, Value)>, name: String, value: Value) -> Seq<
    (String, Value),
> {
    let i = global_index(globals, name@);
    if i >= 0 {
        globals.update(i, (globals[i].0, value))
    } else {
        globals.push((name, value))
    }
}

/// No two globals share a name.
pub open spec fn distinct_names(globals: Seq<(String, Value)>) -> bool {
    forall|i: int, j: int| 0 <= i < j < globals.len() ==> globals[i].0@ != globals[j].0@
}

/// The globals as a map from names to values.
pub open spec fn globals_map(globals: Seq<(String, Value)>) -> Map<Seq<char>, Value> {
    Map::new(
        |name: Seq<char>| global_index(globals, name) >= 0,
        |name: Seq<char>| globals[global_index(globals, name)].1,
    )
}

/// The stack after popping up to two values.
pub open spec fn pop_two(stack: Seq<Value>) -> Seq<Value> {
    if stack.len() >= 2 {
        stack.subrange(0, stack.len() - 2)
    } else {
        Seq::empty()
    }
}

/// What one operation does: from the stack `stack` and globals `globals`,
/// with the operation on line `line` of a chunk with constant slots
/// `constants`, the machine may reach `stack2`, `globals2` and ask `step`.
/// Only comparing two functions leaves a choice: they compare equal only if
/// they are the same function.
pub open spec fn transition(
    stack: Seq<Value>,
    globals: Seq<(String, Value)>,
    op: Operation,
    line: usize,
    constants: Seq<Option<Value>>,
    stack2: Seq<Value>,
    globals2: Seq<(String, Value)>,
    step: StepView,
) -> bool {
    let n = stack.len();
    match op {
        Operation::Return => stack2 == stack && globals2 == globals && step == StepView::Finished(
            ResultView::Success,
        ),
        Operation::Constant(i) => globals2 == globals && if (i as int) < constants.len()
            && constants[i as int] is Some {
            stack2 == stack.push(constants[i as int]->0) && step == StepView::Continue
        } else {
            stack2 == stack && step == fails(line, "No constants initialised."@)
        },
        Operation::Negate => globals2 == globals && if n == 0 {
            stack2 == stack && step == fails(line, "No constants initialised."@)
        } else {
            match stack.last() {
                Value::Number(x) => stack2 == stack.update(n - 1, Value::Number(x ^ SIGN_BIT))
                    && step == StepView::Continue,
                _ => stack2 == stack && step == fails(
                    line,
                    error_message(ChefError::ValueNegationOperation),
                ),
            }
        },
        Operation::Add | Operation::Subtract | Operation::Multiply | Operation::Divide => {
            let arith = match op {
                Operation::Add => ArithmeticOperation::Add,
                Operation::Subtract => ArithmeticOperation::Subtract,
                Operation::Multiply => ArithmeticOperation::Multiply,
                _ => ArithmeticOperation::Divide,
            };
            let mismatch = if op == Operation::Add {
                ChefError::ValueAddOperation
            } else {
                ChefError::ValueNumberOnlyOperation
            };
            &&& globals2 == globals
            &&& stack2 == pop_two(stack)
            &&& if n < 2 {
                step == fails(line, "Not enough constants initialised."@)
            } else {
                match (stack[n - 2], stack[n - 1]) {
                    (Value::Number(a), Value::Number(b)) => step == StepView::Arithmetic(
                        arith,
                        a,
                        b,
                    ),
                    _ => step == fails(line, error_message(mismatch)),
                }
            }
        },
        Operation::Nil => globals2 == globals && stack2 == stack.push(Value::Nil) && step
            == StepView::Continue,
        Operation::True => globals2 == globals && stack2 == stack.push(Value::Boolean(true))
            && step == StepView::Continue,
        Operation::False => globals2 == globals && stack2 == stack.push(Value::Boolean(false))
            && step == StepView::Continue,
        Operation::Not => globals2 == globals && if n == 0 {
            stack2 == stack && step == fails(line, "No constants initialised."@)
        } else {
            stack2 == stack.drop_last().push(Value::Boolean(spec_falsey(stack.last())))
                && step == StepView::Continue
        },
        Operation::Equal => globals2 == globals && if n < 2 {
            stack2 == pop_two(stack) && step == fails(line, "Not enough constants initialised."@)
        } else {
            &&& step == StepView::Continue
            &&& exists|r: bool|
                {
                    &&& stack2 == pop_two(stack).push(Value::Boolean(r))
                    &&& equality_outcome(stack[n - 2], stack[n - 1], r)
                }
        },
        Operation::Greater | Operation::Less => globals2 == globals && stack2 == if n >= 2 {
            match (stack[n - 2], stack[n - 1]) {
                (Value::Number(a), Value::Number(b)) => pop_two(stack).push(
                    Value::Boolean(
                        if op == Operation::Greater {
                            number_lt(b, a)
                        } else {
                            number_lt(a, b)
                        },
                    ),
                ),
                _ => pop_two(stack),
            }
        } else {
            pop_two(stack)
        } && step == if n < 2 {
            fails(line, "Not enough constants initialised."@)
        } else {
            match (stack[n - 2], stack[n - 1]) {
                (Value::Number(a), Value::Number(b)) => StepView::Continue,
                _ => fails(line, error_message(ChefError::ValueNumberOnlyOperation)),
            }
        },
        Operation::Print => globals2 == globals && if n == 0 {
            stack2 == stack && step == fails(line, "No constants initialised."@)
        } else {
            stack2 == stack.drop_last() && step == StepView::Print(stack.last())
        },
        Operation::Pop => globals2 == globals && stack2 == (if n == 0 {
            stack
        } else {
            stack.drop_last()
        }) && step == StepView::Continue,
        Operation::DefineGlobal(i) | Operation::SetGlobal(i) => match name_constant(constants, i) {
            None => stack2 == stack && globals2 == globals && step == fails(
                line,
                "No variable initialised with this name."@,
            ),
            Some(name) => if n == 0 {
                stack2 == stack && globals2 == globals && step == fails(
                    line,
                    "No constants initialised."@,
                )
            } else {
                stack2 == stack.drop_last() && globals2 == globals_insert(
                    globals,
                    name,
                    stack.last(),
                ) && step == StepView::Continue
            },
        },
        Operation::GetGlobal(i) => globals2 == globals && match name_constant(constants, i) {
            None => stack2 == stack && step == fails(
                line,
                "No variable initialised with this name."@,
            ),
            Some(name) => {
                let g = global_index(globals, name@);
                if g >= 0 {
                    stack2 == stack.push(globals[g].1) && step == StepView::Continue
                } else {
                    stack2 == stack && step == fails(
                        line,
                        "No constant initialised with name '"@ + name@ + "'."@,
                    )
                }
            },
        },
        Operation::GetLocal(i) => globals2 == globals && if (i as int) < n {
            stack2 == stack.push(stack[i as int]) && step == StepView::Continue
        } else {
            stack2 == stack && step == fails(
                line,
                "No value at index '"@ + decimal_text(i as nat) + "' in stack."@,
            )
        },
        Operation::SetLocal(i) => globals2 == globals && if n == 0 {
            stack2 == stack && step == fails(line, "No values in stack."@)
        } else if (i as int) < n {
            stack2 == stack.update(i as int, stack.last()) && step == StepView::Continue
        } else {
            stack2 == stack && step == fails(
                line,
                "No value at index '"@ + decimal_text(i as nat) + "' in stack."@,
            )
        },
        _ => stack2 == stack && globals2 == globals && step == fails(
            line,
            "Unsupported operation."@,
        ),
    }
}

/// A virtual machine that runs the operations of a chunk in order, holding a
/// stack of values and a table of global variables.
pub struct Vm {
    value_stack: Vec<Value>,
    global_identifiers: Vec<(String, Value)>,
}

impl Vm {
    /// The values on the stack, bottom first.
    pub closed spec fn stack(&self) -> Seq<Value> {
        self.value_stack@
    }

    /// The global variables, in the order they were first defined.
    pub closed spec fn globals(&self) -> Seq<(String, Value)> {
        self.global_identifiers@
    }

    /// No two globals share a name.
    pub closed spec fn wf(&self) -> bool {
        distinct_names(self.global_identifiers@)
    }

    /// The machine is consistent exactly when no two of its globals share a
    /// name.
    pub proof fn lemma_wf_names(&self)
        ensures
            self.wf() <==> distinct_names(self.globals()),
    {
    }

    /// A machine with an empty stack and no globals.
    pub fn new() -> (vm: Self)
        ensures
            vm.wf(),
            vm.stack().len() == 0,
            vm.globals().len() == 0,
    {
        Self { value_stack: Vec::new(), global_identifiers: Vec::new() }
    }

    /// Pushes the number with bit pattern `bits`, the result an arithmetic
    /// step asked for.
    pub fn push_number(&mut self, bits: u64)
        ensures
            final(self).stack() == old(self).stack().push(Value::Number(bits)),
            final(self).globals() == old(self).globals(),
            old(self).wf() ==> final(self).wf(),
    {
        self.value_stack.push(Value::Number(bits));
    }

    fn find_global(&self, name: &String) -> (index: Option<usize>)
        ensures
            match index {
                Some(i) => i as int == global_index(self.global_identifiers@, name@),
                None => global_index(self.global_identifiers@, name@) == -1,
            },
    {
        let ghost g = self.global_identifiers@;
        let mut i: usize = self.global_identifiers.len();
        proof {
            assert(g.subrange(0, g.len() as int) =~= g);
        }
        while i > 0
            invariant
                g == self.global_identifiers@,
                i <= g.len(),
                global_index(g, name@) == global_index(g.subrange(0, i as int), name@),
            decreases i,
        {
            let ghost prefix = g.subrange(0, i as int);
            proof {
                assert(prefix.drop_last() =~= g.subrange(0, i - 1));
            }
            if self.global_identifiers[i - 1].0 == *name {
                return Some(i - 1);
            }
            i = i - 1;
        }
        proof {
            assert(g.subrange(0, 0).len() == 0);
        }
        None
    }

    fn set_global(&mut self, name: String, value: Value)
        requires
            old(self).wf(),
        ensures
            final(self).wf(),
            final(self).value_stack == old(self).value_stack,
            final(self).global_identifiers@ == globals_insert(
                old(self).global_identifiers@,
                name,
                value,
            ),
    {
        proof {
            lemma_global_index_bounds(self.global_identifiers@, name@);
        }
        match self.find_global(&name) {
            Some(i) => {
                let key = self.global_identifiers[i].0.clone();
                self.global_identifiers[i] = (key, value);
                proof {
                    let old_g = old(self).global_identifiers@;
                    assert forall|a: int, b: int|
                        0 <= a < b < self.global_identifiers@.len() implies self.global_identifiers@[a].0@
                        != self.global_identifiers@[b].0@ by {
                        assert(self.global_identifiers@[a].0@ == old_g[a].0@);
                        assert(self.global_identifiers@[b].0@ == old_g[b].0@);
                    }
                }
            },
            None => {
                self.global_identifiers.push((name, value));
                proof {
                    let old_g = old(self).global_identifiers@;
                    lemma_absent_name(old_g, name@);
                }
            },
        }
    }

    fn runtime_error(line: usize, message: &str) -> (s: Step)
        ensures
            step_view(s) == fails(line, message@),
    {
        Step::Finished(InterpretResult::RuntimeError(line, String::from_str(message)))
    }

    fn local_missing(line: usize, index: u8) -> (s: Step)
        ensures
            step_view(s) == fails(
                line,
                "No value at index '"@ + decimal_text(index as nat) + "' in stack."@,
            ),
    {
        let mut text = String::from_str("No value at index '");
        push_decimal(&mut text, index);
        text.append("' in stack.");
        Step::Finished(InterpretResult::RuntimeError(line, text))
    }

    /// Runs the operation at `offset` of `chunk`; at the end of the chunk the
    /// result is a runtime error, as no `Return` was met.
    pub fn step(&mut self, chunk: &Chunk, offset: usize) -> (s: Step)
        requires
            old(self).wf(),
            chunk.wf(),
            offset <= chunk.code@.len(),
        ensures
            final(self).wf(),
            offset == chunk.code@.len() ==> {
                &&& step_view(s) == fails(0, "Execution ended early."@)
                &&& final(self).stack() == old(self).stack()
                &&& final(self).globals() == old(self).globals()
            },
            offset < chunk.code@.len() ==> transition(
                old(self).stack(),
                old(self).globals(),
                chunk.code@[offset as int],
                chunk.lines@[offset as int],
                chunk.constants@,
                final(self).stack(),
                final(self).globals(),
                step_view(s),
            ),
    {
        if offset == chunk.code.len() {
            return Self::runtime_error(0, "Execution ended early.");
        }
        let line = chunk.lines[offset];
        let n = self.value_stack.len();
        match chunk.code[offset] {
            Operation::Return => Step::Finished(InterpretResult::Success),
            Operation::Constant(index) => {
                match &chunk.constants[index as usize] {
                    Some(constant) => {
                        self.value_stack.push(constant.clone());
                        Step::Continue
                    },
                    None => Self::runtime_error(line, "No constants initialised."),
                }
            },
            Operation::Negate => {
                match self.value_stack.pop() {
                    None => Self::runtime_error(line, "No constants initialised."),
                    Some(mut constant) => {
                        match constant.negate() {
                            Ok(()) => {
                                self.value_stack.push(constant);
                                proof {
                                    let old_stack = old(self).value_stack@;
                                    assert(self.value_stack@ =~= old_stack.update(
                                        old_stack.len() - 1,
                                        constant,
                                    ));
                                }
                                Step::Continue
                            },
                            Err(e) => {
                                self.value_stack.push(constant);
                                proof {
                                    assert(self.value_stack@ =~= old(self).value_stack@);
                                }
                                Step::Finished(InterpretResult::RuntimeError(line, e.message()))
                            },
                        }
                    },
                }
            },
            Operation::Add | Operation::Subtract | Operation::Multiply | Operation::Divide => {
                let op = chunk.code[offset];
                let b = self.value_stack.pop();
                let a = self.value_stack.pop();
                proof {
                    assert(self.value_stack@ =~= pop_two(old(self).value_stack@));
                }
                match (a, b) {
                    (Some(a), Some(b)) => {
                        let (arith, mismatch) = match op {
                            Operation::Add => (ArithmeticOperation::Add, ChefError::ValueAddOperation),
                            Operation::Subtract => (
                                ArithmeticOperation::Subtract,
                                ChefError::ValueNumberOnlyOperation,
                            ),
                            Operation::Multiply => (
                                ArithmeticOperation::Multiply,
                                ChefError::ValueNumberOnlyOperation,
                            ),
                            _ => (ArithmeticOperation::Divide, ChefError::ValueNumberOnlyOperation),
                        };
                        match a.numeric_operands(&b, mismatch) {
                            Ok((x, y)) => Step::Arithmetic(arith, x, y),
                            Err(e) => Step::Finished(InterpretResult::RuntimeError(line, e.message())),
                        }
                    },
                    _ => Self::runtime_error(line, "Not enough constants initialised."),
                }
            },
            Operation::Nil => {
                self.value_stack.push(Value::Nil);
                Step::Continue
            },
            Operation::True => {
                self.value_stack.push(Value::Boolean(true));
                Step::Continue
            },
            Operation::False => {
                self.value_stack.push(Value::Boolean(false));
                Step::Continue
            },
            Operation::Not => {
                match self.value_stack.pop() {
                    None => Self::runtime_error(line, "No constants initialised."),
                    Some(constant) => {
                        let result = constant.falsey();
                        self.value_stack.push(Value::Boolean(result));
                        Step::Continue
                    },
                }
            },
            Operation::Equal => {
                let b = self.value_stack.pop();
                let a = self.value_stack.pop();
                proof {
                    assert(self.value_stack@ =~= pop_two(old(self).value_stack@));
                }
                match (a, b) {
                    (Some(a), Some(b)) => {
                        let result = a.is_equal(b);
                        self.value_stack.push(Value::Boolean(result));
                        Step::Continue
                    },
                    _ => Self::runtime_error(line, "Not enough constants initialised."),
                }
            },
            Operation::Greater | Operation::Less => {
                let op = chunk.code[offset];
                let b = self.value_stack.pop();
                let a = self.value_stack.pop();
                proof {
                    assert(self.value_stack@ =~= pop_two(old(self).value_stack@));
                }
                match (a, b) {
                    (Some(a), Some(b)) => {
                        let compared = if op == Operation::Greater {
                            a.is_greater(b)
                        } else {
                            a.is_less(b)
                        };
                        match compared {
                            Ok(result) => {
                                self.value_stack.push(Value::Boolean(result));
                                Step::Continue
                            },
                            Err(e) => Step::Finished(InterpretResult::RuntimeError(line, e.message())),
                        }
                    },
                    _ => Self::runtime_error(line, "Not enough constants initialised."),
                }
            },
            Operation::Print => {
                match self.value_stack.pop() {
                    None => Self::runtime_error(line, "No constants initialised."),
                    Some(constant) => Step::Print(constant),
                }
            },
            Operation::Pop => {
                let _ = self.value_stack.pop();
                Step::Continue
            },
            Operation::DefineGlobal(index) | Operation::SetGlobal(index) => {
                let name = match &chunk.constants[index as usize] {
                    Some(Value::String(name)) => name.clone(),
                    _ => {
                        return Self::runtime_error(line, "No variable initialised with this name.");
                    },
                };
                match self.value_stack.pop() {
                    None => Self::runtime_error(line, "No constants initialised."),
                    Some(constant) => {
                        self.set_global(name, constant);
                        Step::Continue
                    },
                }
            },
            Operation::GetGlobal(index) => {
                let name = match &chunk.constants[index as usize] {
                    Some(Value::String(name)) => name,
                    _ => {
                        return Self::runtime_error(line, "No variable initialised with this name.");
                    },
                };
                proof {
                    lemma_global_index_bounds(self.global_identifiers@, name@);
                }
                match self.find_global(name) {
                    Some(g) => {
                        let constant = self.global_identifiers[g].1.clone();
                        self.value_stack.push(constant);
                        Step::Continue
                    },
                    None => {
                        let mut text = String::from_str("No constant initialised with name '");
                        text.append(name.as_str());
                        text.append("'.");
                        Step::Finished(InterpretResult::RuntimeError(line, text))
                    },
                }
            },
            Operation::GetLocal(index) => {
                if (index as usize) < n {
                    let value = self.value_stack[index as usize].clone();
                    self.value_stack.push(value);
                    Step::Continue
                } else {
                    Self::local_missing(line, index)
                }
            },
            Operation::SetLocal(index) => {
                if n == 0 {
                    return Self::runtime_error(line, "No values in stack.");
                }
                let replacement_value = self.value_stack[n - 1].clone();
                if (index as usize) < n {
                    self.value_stack[index as usize] = replacement_value;
                    Step::Continue
                } else {
                    Self::local_missing(line, index)
                }
            },
            _ => Self::runtime_error(line, "Unsupported operation."),
        }
    }
}

/// Two global tables whose names agree position by position find each name at
/// the same position.
proof fn lemma_global_index_same_names(g: Seq<(String, Value)>, h: Seq<(String, Value)>, name: Seq<char>)
    requires
        g.len() == h.len(),
        forall|k: int| 0 <= k < g.len() ==> g[k].0@ == h[k].0@,
    ensures
        global_index(g, name) == global_index(h, name),
    decreases g.len(),
{
    if g.len() > 0 {
        assert forall|k: int| 0 <= k < g.len() - 1 implies g.drop_last()[k].0@ == h.drop_last()[k].0@ by {
            assert(g.drop_last()[k] == g[k]);
            assert(h.drop_last()[k] == h[k]);
        }
        lemma_global_index_same_names(g.drop_last(), h.drop_last(), name);
    }
}

/// Binding a name in the globals binds it to the new value and leaves every
/// other name as it was, and no name comes to occur twice: reading a global
/// gives back what was last written to it.
pub proof fn law_binding_a_global(g: Seq<(String, Value)>, name: String, value: Value)
    requires
        distinct_names(g),
    ensures
        distinct_names(globals_insert(g, name, value)),
        globals_map(globals_insert(g, name, value)) == globals_map(g).insert(name@, value),
{
    let g2 = globals_insert(g, name, value);
    lemma_global_index_bounds(g, name@);
    let i = global_index(g, name@);
    if i >= 0 {
        assert forall|k: Seq<char>| #[trigger] global_index(g2, k) == global_index(g, k) by {
            lemma_global_index_same_names(g2, g, k);
        }
        assert forall|a: int, b: int| 0 <= a < b < g2.len() implies g2[a].0@ != g2[b].0@ by {
            assert(g2[a].0@ == g[a].0@);
            assert(g2[b].0@ == g[b].0@);
        }
        assert forall|k: Seq<char>| global_index(g2, k) >= 0 implies g2[global_index(g2, k)].1 == (
        if k == name@ { value } else { g[global_index(g, k)].1 }) by {
            lemma_global_index_bounds(g, k);
            if k != name@ {
                assert(global_index(g, k) != i);
            }
        }
        assert(globals_map(g2) =~= globals_map(g).insert(name@, value));
    } else {
        assert(g2.drop_last() =~= g);
        assert forall|k: Seq<char>| k != name@ implies #[trigger] global_index(g2, k) == global_index(g, k) by {
        }
        assert forall|a: int, b: int| 0 <= a < b < g2.len() implies g2[a].0@ != g2[b].0@ by {
            if b == g2.len() - 1 {
                assert(g2[a] == g[a]);
            } else {
                assert(g2[a] == g[a]);
                assert(g2[b] == g[b]);
            }
        }
        assert forall|k: Seq<char>| k != name@ && global_index(g, k) >= 0 implies g2[global_index(g, k)] == g[global_index(g, k)] by {
            lemma_global_index_bounds(g, k);
        }
        assert(globals_map(g2) =~= globals_map(g).insert(name@, value));
    }
}

/// Defining a global and later reading it: a `DefineGlobal` of the name in a
/// constant slot pops the top value and binds the name to it; when the steps
/// in between leave that name's binding as it was, a `GetGlobal` of the same
/// slot pushes that very value and goes on.
pub proof fn law_define_then_get(
    stack: Seq<Value>,
    globals: Seq<(String, Value)>,
    constants: Seq<Option<Value>>,
    index: u8,
    line: usize,
    stack2: Seq<Value>,
    globals2: Seq<(String, Value)>,
    step: StepView,
    stack3: Seq<Value>,
    globals3: Seq<(String, Value)>,
    line3: usize,
    stack4: Seq<Value>,
    globals4: Seq<(String, Value)>,
    step3: StepView,
)
    requires
        distinct_names(globals),
        stack.len() > 0,
        name_constant(constants, index) is Some,
        transition(stack, globals, Operation::DefineGlobal(index), line, constants, stack2, globals2, step),
        ({
            let name = name_constant(constants, index)->0@;
            &&& globals_map(globals3).contains_key(name) == globals_map(globals2).contains_key(name)
            &&& globals_map(globals3)[name] == globals_map(globals2)[name]
        }),
        transition(stack3, globals3, Operation::GetGlobal(index), line3, constants, stack4, globals4, step3),
    ensures
        step == StepView::Continue,
        stack2 == stack.drop_last(),
        globals_map(globals2) == globals_map(globals).insert(
            name_constant(constants, index)->0@,
            stack.last(),
        ),
        step3 == StepView::Continue,
        stack4 == stack3.push(stack.last()),
        globals4 == globals3,
{
    let name = name_constant(constants, index)->0;
    law_binding_a_global(globals, name, stack.last());
    assert(globals_map(globals2).contains_key(name@));
    lemma_global_index_bounds(globals3, name@);
}

/// The operation `op` defines or sets the global named `name`: it names it
/// through a constant slot.
pub open spec fn writes_global(op: Operation, constants: Seq<Option<Value>>, name: Seq<char>) -> bool {
    match op {
        Operation::DefineGlobal(i) | Operation::SetGlobal(i) => name_constant(constants, i) matches Some(
            n,
        ) && n@ == name,
        _ => false,
    }
}

/// The operations `ops`, on lines `lines` of a chunk with constant slots
/// `constants`, lead through the stacks and globals of `trace`, one step
/// after another.
pub open spec fn runs_through(
    trace: Seq<(Seq<Value>, Seq<(String, Value)>)>,
    ops: Seq<Operation>,
    lines: Seq<usize>,
    constants: Seq<Option<Value>>,
) -> bool {
    &&& trace.len() == ops.len() + 1
    &&& lines.len() == ops.len()
    &&& forall|i: int|
        #![trigger ops[i]]
        0 <= i < ops.len() ==> exists|step: StepView|
            #![trigger transition(trace[i].0, trace[i].1, ops[i], lines[i], constants, trace[i + 1].0, trace[i + 1].1, step)]
            transition(
                trace[i].0,
                trace[i].1,
                ops[i],
                lines[i],
                constants,
                trace[i + 1].0,
                trace[i + 1].1,
                step,
            )
}

/// A step that does not define or set the global `name` leaves its binding
/// as it was, and no name comes to occur twice.
pub proof fn law_other_steps_keep_a_global(
    stack: Seq<Value>,
    globals: Seq<(String, Value)>,
    op: Operation,
    line: usize,
    constants: Seq<Option<Value>>,
    stack2: Seq<Value>,
    globals2: Seq<(String, Value)>,
    step: StepView,
    name: Seq<char>,
)
    requires
        distinct_names(globals),
        !writes_global(op, constants, name),
        transition(stack, globals, op, line, constants, stack2, globals2, step),
    ensures
        distinct_names(globals2),
        globals_map(globals2).contains_key(name) == globals_map(globals).contains_key(name),
        globals_map(globals2)[name] == globals_map(globals)[name],
{
    match op {
        Operation::DefineGlobal(i) | Operation::SetGlobal(i) => {
            if let Some(n) = name_constant(constants, i) {
                if stack.len() > 0 {
                    law_binding_a_global(globals, n, stack.last());
                    assert(n@ != name);
                }
            }
        },
        _ => {},
    }
}

/// Defining a global and reading it back any number of steps later: when
/// a run starts with a `DefineGlobal` of the name in a constant slot, with a
/// value on the stack, ends with a `GetGlobal` of the same slot, and no step
/// in between defines or sets that name, the last step pushes the value
/// the first one bound.
pub proof fn law_define_then_get_across_steps(
    trace: Seq<(Seq<Value>, Seq<(String, Value)>)>,
    ops: Seq<Operation>,
    lines: Seq<usize>,
    constants: Seq<Option<Value>>,
    index: u8,
)
    requires
        runs_through(trace, ops, lines, constants),
        ops.len() >= 2,
        distinct_names(trace[0].1),
        trace[0].0.len() > 0,
        name_constant(constants, index) is Some,
        ops[0] == Operation::DefineGlobal(index),
        ops[ops.len() - 1] == Operation::GetGlobal(index),
        forall|i: int|
            #![trigger ops[i]]
            0 < i < ops.len() - 1 ==> !writes_global(ops[i], constants, name_constant(constants, index)->0@),
    ensures
        trace[ops.len() as int].0 == trace[ops.len() - 1].0.push(trace[0].0.last()),
        trace[ops.len() as int].1 == trace[ops.len() - 1].1,
{
    let name = name_constant(constants, index)->0;
    let v = trace[0].0.last();
    let step0 = choose|step: StepView| #![trigger transition(trace[0].0, trace[0].1, ops[0], lines[0], constants, trace[1].0, trace[1].1, step)] transition(trace[0].0, trace[0].1, ops[0], lines[0], constants, trace[1].0, trace[1].1, step);
    assert(ops[0] == Operation::DefineGlobal(index));
    law_binding_a_global(trace[0].1, name, v);
    lemma_binding_kept(trace, ops, lines, constants, name@, v, (ops.len() - 1) as nat);
    let last = ops.len() - 1;
    assert(ops[last] == Operation::GetGlobal(index));
    let step = choose|step: StepView| #![trigger transition(trace[last].0, trace[last].1, ops[last], lines[last], constants, trace[last + 1].0, trace[last + 1].1, step)] transition(trace[last].0, trace[last].1, ops[last], lines[last], constants, trace[last + 1].0, trace[last + 1].1, step);
    lemma_global_index_bounds(trace[last].1, name@);
}

/// Along a run whose first step bound `name` to `v` and whose later steps up
/// to `j` leave it alone, the globals after step `j` still bind it to `v`.
proof fn lemma_binding_kept(
    trace: Seq<(Seq<Value>, Seq<(String, Value)>)>,
    ops: Seq<Operation>,
    lines: Seq<usize>,
    constants: Seq<Option<Value>>,
    name: Seq<char>,
    v: Value,
    j: nat,
)
    requires
        runs_through(trace, ops, lines, constants),
        1 <= j < ops.len(),
        distinct_names(trace[1].1),
        globals_map(trace[1].1).contains_key(name),
        globals_map(trace[1].1)[name] == v,
        forall|i: int| #![trigger ops[i]] 0 < i < j ==> !writes_global(ops[i], constants, name),
    ensures
        distinct_names(trace[j as int].1),
        globals_map(trace[j as int].1).contains_key(name),
        globals_map(trace[j as int].1)[name] == v,
    decreases j,
{
    if j > 1 {
        let k = (j - 1) as nat;
        let ki = k as int;
        lemma_binding_kept(trace, ops, lines, constants, name, v, k);
        assert(!writes_global(ops[ki], constants, name));
        let step = choose|step: StepView| #![trigger transition(trace[ki].0, trace[ki].1, ops[ki], lines[ki], constants, trace[ki + 1].0, trace[ki + 1].1, step)] transition(trace[ki].0, trace[ki].1, ops[ki], lines[ki], constants, trace[ki + 1].0, trace[ki + 1].1, step);
        law_other_steps_keep_a_global(trace[ki].0, trace[ki].1, ops[ki], lines[ki], constants, trace[ki + 1].0, trace[ki + 1].1, step, name);
    }
}

/// Negating a number flips its sign and keeps its magnitude, in place of the
/// number on top of the stack.
pub proof fn law_negation_flips_the_sign(
    stack: Seq<Value>,
    globals: Seq<(String, Value)>,
    line: usize,
    constants: Seq<Option<Value>>,
    stack2: Seq<Value>,
    globals2: Seq<(String, Value)>,
    step: StepView,
    x: u64,
)
    requires
        stack.len() >= 1,
        stack.last() == Value::Number(x),
        transition(stack, globals, Operation::Negate, line, constants, stack2, globals2, step),
    ensures
        step == StepView::Continue,
        stack2.len() == stack.len(),
        stack2.drop_last() == stack.drop_last(),
        stack2.last() matches Value::Number(z) && sign_is_negative(z) != sign_is_negative(x)
            && magnitude(z) == magnitude(x),
{
    crate::vm::lemma_negated_bits(x);
    assert(stack2.drop_last() =~= stack.drop_last());
}

/// `Not` replaces the value on top of the stack by its logical negation:
/// `true` and `false` swap, `nil` becomes `true`, and every other value,
/// being true, becomes `false`.
pub proof fn law_not_negates_truth(
    stack: Seq<Value>,
    globals: Seq<(String, Value)>,
    line: usize,
    constants: Seq<Option<Value>>,
    stack2: Seq<Value>,
    globals2: Seq<(String, Value)>,
    step: StepView,
)
    requires
        stack.len() >= 1,
        transition(stack, globals, Operation::Not, line, constants, stack2, globals2, step),
    ensures
        step == StepView::Continue,
        stack2 == stack.drop_last().push(
            Value::Boolean(
                match stack.last() {
                    Value::Boolean(b) => !b,
                    Value::Nil => true,
                    _ => false,
                },
            ),
        ),
{
}

/// Reading a global whose name is bound to nothing fails with a runtime error
/// that names it, and changes nothing.
pub proof fn law_reading_an_unbound_global(
    stack: Seq<Value>,
    globals: Seq<(String, Value)>,
    constants: Seq<Option<Value>>,
    index: u8,
    line: usize,
    stack2: Seq<Value>,
    globals2: Seq<(String, Value)>,
    step: StepView,
)
    requires
        name_constant(constants, index) is Some,
        !globals_map(globals).contains_key(name_constant(constants, index)->0@),
        transition(stack, globals, Operation::GetGlobal(index), line, constants, stack2, globals2, step),
    ensures
        stack2 == stack,
        globals2 == globals,
        step == fails(line, "No constant initialised with name '"@ + name_constant(constants, index)->0@ + "'."@),
{
}

proof fn lemma_global_index_bounds(g: Seq<(String, Value)>, name: Seq<char>)
    ensures
        -1 <= global_index(g, name) < g.len(),
        global_index(g, name) >= 0 ==> g[global_index(g, name)].0@ == name,
        global_index(g, name) == -1 ==> forall|k: int| 0 <= k < g.len() ==> g[k].0@ != name,
    decreases g.len(),
{
    if g.len() > 0 {
        lemma_global_index_bounds(g.drop_last(), name);
        if global_index(g, name) == -1 {
            assert forall|k: int| 0 <= k < g.len() implies g[k].0@ != name by {
                if k < g.len() - 1 {
                    assert(g[k] == g.drop_last()[k]);
                }
            }
        }
    }
}

proof fn lemma_absent_name(g: Seq<(String, Value)>, name: Seq<char>)
    requires
        global_index(g, name) == -1,
    ensures
        forall|k: int| 0 <= k < g.len() ==> g[k].0@ != name,
{
    lemma_global_index_bounds(g, name);
}

} // verus!
