use vstd::prelude::*;
use vstd::string::StringExecFns;

use crate::chunk::{Code, OPCODE_COUNT};
use crate::common::{CALL_FRAMES_MAX_COUNT, STACK_VALUES_MAX_COUNT};
use crate::error::{ChefError, InterpretResult};
use crate::value::{
    magnitude, number_lt, sign_is_negative, spec_falsey, equality_outcome, ArithmeticOperation,
    NativeFunctionIndex, Value, SIGN_BIT,
};

verus! {

/// A function call in progress: the function's name, the line it was at when
/// it last called another, where its locals start on the stack, and where to
/// continue when it returns.
#[derive(Debug, Default, Clone)]
pub struct CallFrame {
    pub name: String,
    pub line: usize,
    pub stack_index: usize,
    pub continuation_ip: usize,
}

/// What the machine asks of its driver after one instruction.
#[derive(Debug)]
pub enum Action {
    /// Go on with the next instruction.
    Continue,
    /// Show the value, then go on.
    Print(Value),
    /// Combine the two numbers (given by their bit patterns, left operand
    /// first), push the resulting number with `push`, then go on.
    Arithmetic(ArithmeticOperation, u64, u64),
    /// Call the native function with the given index, argument count and
    /// stack position of its first argument, hand its result to
    /// `finish_native_call`, then go on.
    CallNative(NativeFunctionIndex, u8, usize),
    /// The script has returned; interpretation is over.
    Finished,
}

/// The machine's state as values: where it is in the code, its call frames,
/// and its stack.
pub struct StateView {
    pub ip: int,
    pub frames: Seq<Option<CallFrame>>,
    pub frame_count: int,
    pub stack: Seq<Option<Value>>,
    pub stack_top: int,
}

/// The state with the instruction pointer moved to `ip`.
pub open spec fn at_ip(s: StateView, ip: int) -> StateView {
    StateView { ip: ip, ..s }
}

/// The top value can be popped: the stack is not empty and its top slot is filled.
pub open spec fn can_pop(s: StateView) -> bool {
    1 <= s.stack_top <= s.stack.len() && s.stack[s.stack_top - 1] is Some
}

/// The value on top of the stack.
pub open spec fn top_value(s: StateView) -> Value {
    s.stack[s.stack_top - 1]->0
}

/// The state after popping the top value, whose slot is emptied.
pub open spec fn popped(s: StateView) -> StateView {
    StateView { stack: s.stack.update(s.stack_top - 1, None), stack_top: s.stack_top - 1, ..s }
}

/// The state after pushing `v`.
pub open spec fn pushed(s: StateView, v: Value) -> StateView {
    StateView { stack: s.stack.update(s.stack_top, Some(v)), stack_top: s.stack_top + 1, ..s }
}

/// Pushing `v` onto `s` leads to `post` with result `r`: a full stack is an
/// overflow that changes nothing.
pub open spec fn push_outcome(
    s: StateView,
    v: Value,
    post: StateView,
    r: InterpretResult<Action>,
) -> bool {
    if s.stack_top >= STACK_VALUES_MAX_COUNT {
        post == s && r == Err::<Action, ChefError>(ChefError::StackOverflow)
    } else {
        post == pushed(s, v) && r == Ok::<Action, ChefError>(Action::Continue)
    }
}

/// The little-endian 16-bit operand at position `k` of the code.
pub open spec fn operand_u16(code: Code, k: int) -> int {
    code.code@[k] as int + 256 * code.code@[k + 1] as int
}

/// Where the local addressed by slot `index`, `frame_pops` frames below the
/// current one, lies on the stack.
pub open spec fn local_slot(s: StateView, index: u8, frame_pops: u8) -> int {
    s.frames[s.frame_count - 1 - frame_pops]->0.stack_index + index
}

/// The frame `frame_pops` below the current one exists.
pub open spec fn frame_exists(s: StateView, frame_pops: u8) -> bool {
    &&& s.frame_count - 1 - frame_pops >= 0
    &&& s.frame_count <= s.frames.len()
    &&& s.frames[s.frame_count - 1 - frame_pops] is Some
}

/// The opcodes the machine runs: all but the global-variable and function
/// declaration instructions.
pub open spec fn runnable_opcode(b: u8) -> bool {
    b < OPCODE_COUNT && b != 15 && b != 16 && b != 17 && b != 25
}

/// The instruction at the machine's position can run without reading outside
/// the code, the stack or the frames.
pub open spec fn can_step(s: StateView, code: Code) -> bool {
    let n = code.code@.len();
    let s1 = at_ip(s, s.ip + 1);
    &&& 0 <= s.ip < n
    &&& runnable_opcode(code.code@[s.ip])
    &&& {
        let b = code.code@[s.ip];
        if b == 0 {
            &&& can_pop(s1)
            &&& 1 <= s.frame_count <= s.frames.len()
            &&& s.frames[s.frame_count - 1] is Some
            &&& s.frame_count > 1 ==> {
                let fr = s.frames[s.frame_count - 1]->0;
                let s2 = popped(s1);
                &&& 1 <= fr.stack_index <= s2.stack.len()
                &&& s2.stack[fr.stack_index - 1] is Some
            }
        } else if b == 20 {
            s.ip + 1 < n
        } else if b == 1 || b == 9 || b == 13 || b == 14 {
            can_pop(s1)
        } else if (2 <= b <= 5) || (10 <= b <= 12) {
            can_pop(s1) && can_pop(popped(s1))
        } else if 6 <= b <= 8 {
            true
        } else if b == 18 || b == 19 {
            &&& s.ip + 2 < n
            &&& frame_exists(s, code.code@[s.ip + 2])
            &&& local_slot(s, code.code@[s.ip + 1], code.code@[s.ip + 2]) < s.stack.len()
            &&& b == 18 ==> s.stack[local_slot(s, code.code@[s.ip + 1], code.code@[s.ip + 2])] is Some
            &&& b == 19 ==> can_pop(s)
        } else if b == 21 || b == 22 || b == 23 {
            &&& s.ip + 2 < n
            &&& b == 21 ==> can_pop(s)
            &&& b != 23 ==> s.ip + 3 + operand_u16(code, s.ip + 1) <= usize::MAX
            &&& b == 23 ==> operand_u16(code, s.ip + 1) <= s.ip + 3
        } else {
            &&& s.ip + 1 < n
            &&& call_ready(at_ip(s, s.ip + 2), code, code.code@[s.ip + 1])
        }
    }
}

/// A call with `argc` arguments can be made from `s`: the callee and its
/// arguments are on the stack, and a call of a function that takes that many
/// arguments has a line to record for its caller and a caller's frame.
pub open spec fn call_ready(s: StateView, code: Code, argc: u8) -> bool {
    &&& argc + 1 <= s.stack_top <= s.stack.len()
    &&& s.stack[s.stack_top - 1 - argc] is Some
    &&& (s.stack[s.stack_top - 1 - argc]->0 matches Value::Function(f) && f.arity == argc) ==> {
        &&& 0 <= s.ip < code.lines@.len()
        &&& 1 <= s.frame_count <= s.frames.len()
        &&& s.frames[s.frame_count - 1] is Some
    }
}

/// Calling the value `argc` slots below the top of the stack from `s` may lead
/// to `post` with result `r`: a native function is handed to the caller to
/// run; a function that takes `argc` arguments gets a new frame and the
/// machine moves to its code, unless all frames are in use; any other callee,
/// or a wrong number of arguments, is an error.
pub open spec fn call_outcome(
    s: StateView,
    code: Code,
    argc: u8,
    post: StateView,
    r: InterpretResult<Action>,
) -> bool {
    let go = Ok::<Action, ChefError>(Action::Continue);
    match s.stack[s.stack_top - 1 - argc]->0 {
        Value::NativeFunction(i) => post == s && r == Ok::<Action, ChefError>(
            Action::CallNative(i, argc, (s.stack_top - argc) as usize),
        ),
        Value::Function(f) => if f.arity != argc {
            post == s && r == Err::<Action, ChefError>(ChefError::FunctionArity(f.arity, argc))
        } else {
            let caller = s.frames[s.frame_count - 1]->0;
            let s3 = StateView {
                frames: s.frames.update(
                    s.frame_count - 1,
                    Some(CallFrame { line: code.lines@[s.ip], ..caller }),
                ),
                ..s
            };
            if s.frame_count >= CALL_FRAMES_MAX_COUNT {
                post == s3 && r == Err::<Action, ChefError>(ChefError::StackOverflow)
            } else {
                &&& r == go
                &&& post.ip == f.ip_start
                &&& post.stack == s.stack
                &&& post.stack_top == s.stack_top
                &&& post.frame_count == s.frame_count + 1
                &&& post.frames == s3.frames.update(s.frame_count, post.frames[s.frame_count])
                &&& post.frames[s.frame_count] matches Some(frame) && frame.name@ == f.name@
                    && frame.line == 0 && frame.stack_index == s.stack_top - argc
                    && frame.continuation_ip == s.ip
            }
        },
        _ => post == s && r == Err::<Action, ChefError>(ChefError::InvalidCallee),
    }
}

/// Running the instruction at the machine's position may lead from `s` to
/// `post` with result `r`. Only comparing two functions leaves a choice: they
/// compare equal only if they are the same function.
pub open spec fn step_outcome(
    s: StateView,
    code: Code,
    post: StateView,
    r: InterpretResult<Action>,
) -> bool {
    let b = code.code@[s.ip];
    let s1 = at_ip(s, s.ip + 1);
    let go = Ok::<Action, ChefError>(Action::Continue);
    if b == 0 {
        let v = top_value(s1);
        let fr = s.frames[s.frame_count - 1]->0;
        let s2 = popped(s1);
        let s3 = StateView {
            frames: s2.frames.update(s.frame_count - 1, None),
            frame_count: s.frame_count - 1,
            ..s2
        };
        if s.frame_count == 1 {
            post == s3 && r == Ok::<Action, ChefError>(Action::Finished)
        } else {
            let s4 = StateView { stack_top: fr.stack_index as int, ip: fr.continuation_ip as int, ..s3 };
            post == pushed(popped(s4), v) && r == go
        }
    } else if b == 20 {
        push_outcome(
            at_ip(s, s.ip + 2),
            code.constants@[code.code@[s.ip + 1] as int],
            post,
            r,
        )
    } else if b == 1 {
        match top_value(s1) {
            Value::Number(x) => post == pushed(popped(s1), Value::Number(x ^ SIGN_BIT)) && r == go,
            _ => post == popped(s1) && r == Err::<Action, ChefError>(
                ChefError::ValueNegationOperation,
            ),
        }
    } else if 2 <= b <= 5 {
        let bv = top_value(s1);
        let av = top_value(popped(s1));
        let s2 = popped(popped(s1));
        let arith = if b == 2 {
            ArithmeticOperation::Add
        } else if b == 3 {
            ArithmeticOperation::Subtract
        } else if b == 4 {
            ArithmeticOperation::Multiply
        } else {
            ArithmeticOperation::Divide
        };
        match (av, bv) {
            (Value::String(x), Value::String(y)) => if b == 2 {
                &&& r == go
                &&& post.stack_top == s2.stack_top + 1
                &&& post.stack == s2.stack.update(s2.stack_top, post.stack[s2.stack_top])
                &&& post.stack[s2.stack_top] matches Some(Value::String(z)) && z@ == x@ + y@
                &&& post.ip == s2.ip && post.frames == s2.frames && post.frame_count
                    == s2.frame_count
            } else {
                post == s2 && r == Err::<Action, ChefError>(ChefError::ValueNumberOnlyOperation)
            },
            (Value::Number(x), Value::Number(y)) => post == s2 && r == Ok::<Action, ChefError>(
                Action::Arithmetic(arith, x, y),
            ),
            _ => post == s2 && r == Err::<Action, ChefError>(
                if b == 2 {
                    ChefError::ValueAddOperation
                } else {
                    ChefError::ValueNumberOnlyOperation
                },
            ),
        }
    } else if b == 6 {
        push_outcome(s1, Value::Nil, post, r)
    } else if b == 7 {
        push_outcome(s1, Value::Boolean(true), post, r)
    } else if b == 8 {
        push_outcome(s1, Value::Boolean(false), post, r)
    } else if b == 9 {
        post == pushed(popped(s1), Value::Boolean(spec_falsey(top_value(s1)))) && r == go
    } else if b == 10 {
        let bv = top_value(s1);
        let av = top_value(popped(s1));
        &&& r == go
        &&& exists|eq: bool|
            {
                &&& post == pushed(popped(popped(s1)), Value::Boolean(eq))
                &&& equality_outcome(av, bv, eq)
            }
    } else if b == 11 || b == 12 {
        let bv = top_value(s1);
        let av = top_value(popped(s1));
        let s2 = popped(popped(s1));
        match (av, bv) {
            (Value::Number(x), Value::Number(y)) => post == pushed(
                s2,
                Value::Boolean(
                    if b == 11 {
                        number_lt(y, x)
                    } else {
                        number_lt(x, y)
                    },
                ),
            ) && r == go,
            _ => post == s2 && r == Err::<Action, ChefError>(ChefError::ValueNumberOnlyOperation),
        }
    } else if b == 13 {
        post == popped(s1) && r == Ok::<Action, ChefError>(Action::Print(top_value(s1)))
    } else if b == 14 {
        post == popped(s1) && r == go
    } else if b == 18 {
        let slot = local_slot(s, code.code@[s.ip + 1], code.code@[s.ip + 2]);
        push_outcome(at_ip(s, s.ip + 3), s.stack[slot]->0, post, r)
    } else if b == 19 {
        let slot = local_slot(s, code.code@[s.ip + 1], code.code@[s.ip + 2]);
        post == StateView {
            ip: s.ip + 3,
            stack: s.stack.update(slot, Some(top_value(s))),
            ..s
        } && r == go
    } else if b == 21 {
        let off = operand_u16(code, s.ip + 1);
        r == go && post == at_ip(
            s,
            if spec_falsey(top_value(s)) {
                s.ip + 3 + off
            } else {
                s.ip + 3
            },
        )
    } else if b == 22 {
        r == go && post == at_ip(s, s.ip + 3 + operand_u16(code, s.ip + 1))
    } else if b == 23 {
        r == go && post == at_ip(s, s.ip + 3 - operand_u16(code, s.ip + 1))
    } else {
        call_outcome(at_ip(s, s.ip + 2), code, code.code@[s.ip + 1], post, r)
    }
}

/// The instruction at the position of `s` compares two numbers: the byte
/// `op` is there, and below the top of the stack lies `x`, on top `y`.
pub open spec fn compares(s: StateView, code: Code, op: u8, x: u64, y: u64) -> bool {
    &&& 0 <= s.ip < code.code@.len()
    &&& code.code@[s.ip] == op
    &&& can_pop(s)
    &&& can_pop(popped(s))
    &&& top_value(popped(s)) == Value::Number(x)
    &&& top_value(s) == Value::Number(y)
}

/// Asking whether `x > y` gives the same answer as asking whether `y < x`:
/// `Greater` on two numbers pushes what `Less` pushes on the same numbers
/// in the other order, and both go on.
pub proof fn law_greater_is_less_the_other_way_round(
    s: StateView,
    code: Code,
    post: StateView,
    r: InterpretResult<Action>,
    s2: StateView,
    code2: Code,
    post2: StateView,
    r2: InterpretResult<Action>,
    x: u64,
    y: u64,
)
    requires
        compares(s, code, 11, x, y),
        compares(s2, code2, 12, y, x),
        step_outcome(s, code, post, r),
        step_outcome(s2, code2, post2, r2),
    ensures
        r == Ok::<Action, ChefError>(Action::Continue),
        r2 == Ok::<Action, ChefError>(Action::Continue),
        top_value(post) == top_value(post2),
        top_value(post) is Boolean,
{
    lemma_comparison_pushes(s, code, post, r, 11, x, y);
    lemma_comparison_pushes(s2, code2, post2, r2, 12, y, x);
}

/// The recipe machine and the machine of the other dialect agree on
/// comparisons: `Greater` and `Less` on the same two numbers push the same
/// truth value on both.
pub proof fn law_machines_agree_on_comparisons(
    s: StateView,
    code: Code,
    post: StateView,
    r: InterpretResult<Action>,
    op: u8,
    x: u64,
    y: u64,
    stack: Seq<Value>,
    globals: Seq<(String, Value)>,
    line: usize,
    constants: Seq<Option<Value>>,
    stack2: Seq<Value>,
    globals2: Seq<(String, Value)>,
    step: crate::lox::vm::StepView,
)
    requires
        op == 11 || op == 12,
        compares(s, code, op, x, y),
        step_outcome(s, code, post, r),
        stack.len() >= 2,
        stack[stack.len() - 2] == Value::Number(x),
        stack[stack.len() - 1] == Value::Number(y),
        crate::lox::vm::transition(
            stack,
            globals,
            if op == 11 {
                crate::lox::chunk::Operation::Greater
            } else {
                crate::lox::chunk::Operation::Less
            },
            line,
            constants,
            stack2,
            globals2,
            step,
        ),
    ensures
        stack2.len() == stack.len() - 1,
        top_value(post) == stack2.last(),
{
    lemma_comparison_pushes(s, code, post, r, op, x, y);
}

/// Running `Greater` (byte 11) or `Less` (byte 12) on two numbers goes on
/// with the numbers replaced by the truth value of the comparison.
pub proof fn lemma_comparison_pushes(
    s: StateView,
    code: Code,
    post: StateView,
    r: InterpretResult<Action>,
    op: u8,
    x: u64,
    y: u64,
)
    requires
        op == 11 || op == 12,
        compares(s, code, op, x, y),
        step_outcome(s, code, post, r),
    ensures
        r == Ok::<Action, ChefError>(Action::Continue),
        post.stack_top == s.stack_top - 1,
        post.stack_top <= post.stack.len(),
        post.stack_top >= 1,
        top_value(post) == Value::Boolean(if op == 11 { number_lt(y, x) } else { number_lt(x, y) }),
{
    let s1 = at_ip(s, s.ip + 1);
    assert(top_value(s1) == top_value(s));
    assert(popped(s1) == at_ip(popped(s), s.ip + 1));
    assert(top_value(popped(s1)) == top_value(popped(s)));
}

/// The bits of a negated number: the sign flips and the magnitude stays.
pub proof fn lemma_negated_bits(x: u64)
    ensures
        sign_is_negative(x ^ SIGN_BIT) != sign_is_negative(x),
        magnitude(x ^ SIGN_BIT) == magnitude(x),
{
    assert(((x ^ 0x8000_0000_0000_0000u64) & 0x8000_0000_0000_0000u64 != 0) != (x
        & 0x8000_0000_0000_0000u64 != 0)) by (bit_vector);
    assert((x ^ 0x8000_0000_0000_0000u64) & !0x8000_0000_0000_0000u64 == x
        & !0x8000_0000_0000_0000u64) by (bit_vector);
}

/// Negating a number flips its sign and keeps its magnitude, in place of the
/// number on top of the stack.
pub proof fn law_negation_flips_the_sign(
    s: StateView,
    code: Code,
    post: StateView,
    r: InterpretResult<Action>,
    x: u64,
)
    requires
        0 <= s.ip < code.code@.len(),
        code.code@[s.ip] == 1,
        can_pop(s),
        top_value(s) == Value::Number(x),
        step_outcome(s, code, post, r),
    ensures
        r == Ok::<Action, ChefError>(Action::Continue),
        post.stack_top == s.stack_top,
        top_value(post) matches Value::Number(z) && sign_is_negative(z) != sign_is_negative(x)
            && magnitude(z) == magnitude(x),
{
    lemma_negated_bits(x);
    assert(top_value(at_ip(s, s.ip + 1)) == top_value(s));
}

/// `Not` replaces the value on top of the stack by its logical negation:
/// `true` and `false` swap, `nil` becomes `true`, and every other value,
/// being true, becomes `false`.
pub proof fn law_not_negates_truth(
    s: StateView,
    code: Code,
    post: StateView,
    r: InterpretResult<Action>,
    v: Value,
)
    requires
        0 <= s.ip < code.code@.len(),
        code.code@[s.ip] == 9,
        can_pop(s),
        top_value(s) == v,
        step_outcome(s, code, post, r),
    ensures
        r == Ok::<Action, ChefError>(Action::Continue),
        post.stack_top == s.stack_top,
        top_value(post) == Value::Boolean(
            match v {
                Value::Boolean(b) => !b,
                Value::Nil => true,
                _ => false,
            },
        ),
{
    assert(top_value(at_ip(s, s.ip + 1)) == top_value(s));
}

/// Popping right after pushing gives back the pushed value and the stack as it
/// was, with the slot above the top emptied.
pub proof fn law_pop_undoes_push(s: StateView, v: Value)
    requires
        0 <= s.stack_top < s.stack.len(),
    ensures
        can_pop(pushed(s, v)),
        top_value(pushed(s, v)) == v,
        popped(pushed(s, v)) == (StateView { stack: s.stack.update(s.stack_top, None), ..s }),
{
    assert(popped(pushed(s, v)).stack =~= s.stack.update(s.stack_top, None));
}

/// Returning from the only call frame ends interpretation with the script's
/// frame gone; returning from a deeper frame resumes its caller where the call
/// left off, with the result in place of the callee.
pub proof fn law_return_resumes_caller(s: StateView, code: Code, post: StateView, r: InterpretResult<Action>)
    requires
        can_step(s, code),
        code.code@[s.ip] == 0,
        step_outcome(s, code, post, r),
    ensures
        post.frame_count == s.frame_count - 1,
        s.frame_count == 1 ==> r == Ok::<Action, ChefError>(Action::Finished),
        s.frame_count > 1 ==> {
            let fr = s.frames[s.frame_count - 1]->0;
            &&& r == Ok::<Action, ChefError>(Action::Continue)
            &&& post.ip == fr.continuation_ip
            &&& post.stack_top == fr.stack_index
            &&& post.stack[fr.stack_index - 1] == Some(top_value(at_ip(s, s.ip + 1)))
        },
{
}

/// The machine has just read the opcode `b` of an instruction that can run.
pub open spec fn just_read(s: StateView, code: Code, b: u8) -> bool {
    &&& s.ip >= 1
    &&& code.code@[s.ip - 1] == b
    &&& can_step(at_ip(s, s.ip - 1), code)
}

/// The recipe virtual machine: a byte stream of code, call frames and a value stack.
pub struct State {
    ip: usize,
    code: Code,
    frames: Vec<Option<CallFrame>>,
    frame_count: usize,
    stack: Vec<Option<Value>>,
    stack_top: usize,
}

impl View for State {
    type V = StateView;

    closed spec fn view(&self) -> StateView {
        StateView {
            ip: self.ip as int,
            frames: self.frames@,
            frame_count: self.frame_count as int,
            stack: self.stack@,
            stack_top: self.stack_top as int,
        }
    }
}

impl State {
    /// The code the machine runs.
    pub closed spec fn code(&self) -> Code {
        self.code
    }

    /// The frame and stack tables have their fixed sizes and their counts stay
    /// within them.
    pub closed spec fn wf(&self) -> bool {
        &&& self.frames@.len() == CALL_FRAMES_MAX_COUNT
        &&& self.frame_count <= CALL_FRAMES_MAX_COUNT
        &&& self.stack@.len() == STACK_VALUES_MAX_COUNT
        &&& self.stack_top <= STACK_VALUES_MAX_COUNT
        &&& self.code.wf()
    }

    /// The machine is consistent exactly when its frame and stack tables have
    /// their fixed sizes, its counts lie within them, and its code is
    /// consistent.
    pub proof fn lemma_wf_shape(&self)
        ensures
            self.wf() <==> {
                &&& self@.frames.len() == CALL_FRAMES_MAX_COUNT
                &&& 0 <= self@.frame_count <= CALL_FRAMES_MAX_COUNT
                &&& self@.stack.len() == STACK_VALUES_MAX_COUNT
                &&& 0 <= self@.stack_top <= STACK_VALUES_MAX_COUNT
                &&& self.code().wf()
            },
    {
    }

    /// A machine at the start of `code`, with no frames and an empty stack.
    pub fn new(code: Code) -> (state: Self)
        requires
            code.wf(),
        ensures
            state.wf(),
            state.code() == code,
            state@.ip == 0,
            state@.frame_count == 0,
            state@.stack_top == 0,
            forall|i: int| 0 <= i < CALL_FRAMES_MAX_COUNT ==> state@.frames[i] is None,
            forall|i: int| 0 <= i < STACK_VALUES_MAX_COUNT ==> state@.stack[i] is None,
    {
        let mut frames: Vec<Option<CallFrame>> = Vec::new();
        let mut i: usize = 0;
        while i < CALL_FRAMES_MAX_COUNT
            invariant
                i <= CALL_FRAMES_MAX_COUNT,
                frames@.len() == i,
                forall|k: int| 0 <= k < i ==> frames@[k] is None,
            decreases CALL_FRAMES_MAX_COUNT - i,
        {
            frames.push(None);
            i = i + 1;
        }
        let mut stack: Vec<Option<Value>> = Vec::new();
        let mut j: usize = 0;
        while j < STACK_VALUES_MAX_COUNT
            invariant
                j <= STACK_VALUES_MAX_COUNT,
                stack@.len() == j,
                forall|k: int| 0 <= k < j ==> stack@[k] is None,
            decreases STACK_VALUES_MAX_COUNT - j,
        {
            stack.push(None);
            j = j + 1;
        }
        Self { ip: 0, code, frames, frame_count: 0, stack, stack_top: 0 }
    }

    fn reset(&mut self)
        ensures
            final(self)@ == (StateView { stack_top: 0, frame_count: 0, ..old(self)@ }),
            final(self).code == old(self).code,
            old(self).wf() ==> final(self).wf(),
    {
        self.stack_top = 0;
        self.frame_count = 0;
    }

    /// Records where the current call is, empties the frames and the stack,
    /// and returns the call trace from the innermost call out: each frame's
    /// name (empty for the script) and line.
    pub fn stack_error(&mut self) -> (trace: Vec<(String, usize)>)
        requires
            old(self).wf(),
            1 <= old(self)@.frame_count,
            forall|k: int| 0 <= k < old(self)@.frame_count ==> old(self)@.frames[k] is Some,
            old(self)@.ip < old(self).code().lines@.len(),
        ensures
            final(self).wf(),
            final(self).code() == old(self).code(),
            final(self)@.stack_top == 0,
            final(self)@.frame_count == 0,
            final(self)@.ip == old(self)@.ip,
            trace@.len() == old(self)@.frame_count,
            ({
                let fc = old(self)@.frame_count;
                let top = old(self)@.frames[fc - 1]->0;
                &&& final(self)@.frames == old(self)@.frames.update(
                    fc - 1,
                    Some(CallFrame { line: old(self).code().lines@[old(self)@.ip], ..top }),
                )
                &&& forall|k: int|
                    0 <= k < fc ==> trace@[k].0 == final(self)@.frames[fc - 1 - k]->0.name
                        && trace@[k].1 == final(self)@.frames[fc - 1 - k]->0.line
            }),
    {
        let line = self.code.lines[self.ip];
        let index = self.frame_count - 1;
        let mut frame = self.frames[index].take().unwrap();
        frame.line = line;
        self.frames[index] = Some(frame);
        let mut trace: Vec<(String, usize)> = Vec::new();
        let mut frame_count = self.frame_count;
        while frame_count > 0
            invariant
                self.wf(),
                self.frame_count == old(self).frame_count,
                frame_count <= self.frame_count,
                forall|k: int| 0 <= k < self.frame_count ==> self.frames@[k] is Some,
                trace@.len() == self.frame_count - frame_count,
                forall|k: int|
                    0 <= k < trace@.len() ==> trace@[k].0 == self.frames@[self.frame_count - 1
                        - k]->0.name && trace@[k].1 == self.frames@[self.frame_count - 1 - k]->0.line,
            decreases frame_count,
        {
            frame_count = frame_count - 1;
            match &self.frames[frame_count] {
                Some(frame) => {
                    trace.push((frame.name.clone(), frame.line));
                },
                None => {
                    proof {
                        assert(false);
                    }
                },
            }
        }
        self.reset();
        trace
    }

    /// Enters a call by pushing `frame`, or fails with a stack overflow when
    /// all frames are in use.
    pub fn push_frame(&mut self, frame: CallFrame) -> (r: InterpretResult<()>)
        requires
            old(self).wf(),
        ensures
            final(self).wf(),
            final(self).code() == old(self).code(),
            old(self)@.frame_count == CALL_FRAMES_MAX_COUNT ==> r == Err::<(), ChefError>(
                ChefError::StackOverflow,
            ) && final(self)@ == old(self)@,
            old(self)@.frame_count < CALL_FRAMES_MAX_COUNT ==> r is Ok && final(self)@
                == (StateView {
                frames: old(self)@.frames.update(old(self)@.frame_count, Some(frame)),
                frame_count: old(self)@.frame_count + 1,
                ..old(self)@
            }),
    {
        if self.frame_count == CALL_FRAMES_MAX_COUNT {
            return Err(ChefError::StackOverflow);
        }
        self.frames[self.frame_count] = Some(frame);
        self.frame_count += 1;
        Ok(())
    }

    fn pop_frame(&mut self) -> (frame: CallFrame)
        requires
            old(self).wf(),
            1 <= old(self)@.frame_count,
            old(self)@.frames[old(self)@.frame_count - 1] is Some,
        ensures
            final(self).wf(),
            final(self).code == old(self).code,
            frame == old(self)@.frames[old(self)@.frame_count - 1]->0,
            final(self)@ == (StateView {
                frames: old(self)@.frames.update(old(self)@.frame_count - 1, None),
                frame_count: old(self)@.frame_count - 1,
                ..old(self)@
            }),
    {
        self.frame_count -= 1;
        self.frames[self.frame_count].take().unwrap()
    }

    /// Pushes `value`, or fails with a stack overflow when the stack is full.
    pub fn push(&mut self, value: Value) -> (r: InterpretResult<()>)
        requires
            old(self).wf(),
        ensures
            final(self).wf(),
            final(self).code() == old(self).code(),
            old(self)@.stack_top == STACK_VALUES_MAX_COUNT ==> r == Err::<(), ChefError>(
                ChefError::StackOverflow,
            ) && final(self)@ == old(self)@,
            old(self)@.stack_top < STACK_VALUES_MAX_COUNT ==> r is Ok && final(self)@ == pushed(
                old(self)@,
                value,
            ),
    {
        if self.stack_top == STACK_VALUES_MAX_COUNT {
            return Err(ChefError::StackOverflow);
        }
        self.stack[self.stack_top] = Some(value);
        self.stack_top += 1;
        Ok(())
    }

    fn pop(&mut self) -> (value: Value)
        requires
            old(self).wf(),
            can_pop(old(self)@),
        ensures
            final(self).wf(),
            final(self).code == old(self).code,
            value == top_value(old(self)@),
            final(self)@ == popped(old(self)@),
    {
        self.stack_top -= 1;
        self.stack[self.stack_top].take().unwrap()
    }

    fn peek(&self, depth: usize) -> (value: &Value)
        requires
            self.wf(),
            depth + 1 <= self.stack_top,
            self.stack@[self.stack_top - 1 - depth] is Some,
        ensures
            *value == self.stack@[self.stack_top - 1 - depth]->0,
    {
        match &self.stack[self.stack_top - 1 - depth] {
            Some(value) => value,
            None => {
                proof {
                    assert(false);
                }
                &self.stack[0].as_ref().unwrap()
            },
        }
    }

    fn read_byte(&mut self) -> (byte: u8)
        requires
            old(self)@.ip < old(self).code.code@.len(),
        ensures
            byte == old(self).code.code@[old(self)@.ip],
            final(self)@ == at_ip(old(self)@, old(self)@.ip + 1),
            final(self).code == old(self).code,
            old(self).wf() ==> final(self).wf(),
    {
        let _length = self.code.code.len();
        let byte = self.code.code[self.ip];
        self.ip += 1;
        byte
    }

    fn read_u16(&mut self) -> (offset: usize)
        requires
            old(self)@.ip + 2 <= old(self).code.code@.len(),
        ensures
            offset == operand_u16(old(self).code, old(self)@.ip),
            final(self)@ == at_ip(old(self)@, old(self)@.ip + 2),
            final(self).code == old(self).code,
            old(self).wf() ==> final(self).wf(),
    {
        let _length = self.code.code.len();
        self.ip += 2;
        let byte_1 = self.code.code[self.ip - 2] as usize;
        let byte_2 = self.code.code[self.ip - 1] as usize;
        byte_1 + 256 * byte_2
    }

    fn read_constant(&self, index: u8) -> (r: InterpretResult<Value>)
        requires
            self.wf(),
        ensures
            r == Ok::<Value, ChefError>(self.code.constants@[index as int]),
    {
        if (index as usize) < self.code.constants.len() {
            Ok(self.code.constants[index as usize].clone())
        } else {
            Err(ChefError::OutOfBounds)
        }
    }

    /// Completes a native call: the callee's slot is replaced by `result`.
    pub fn finish_native_call(&mut self, result: Value) -> (r: InterpretResult<()>)
        requires
            old(self).wf(),
            1 <= old(self)@.stack_top,
        ensures
            final(self).wf(),
            final(self).code() == old(self).code(),
            r is Ok,
            final(self)@ == pushed(
                StateView { stack_top: old(self)@.stack_top - 1, ..old(self)@ },
                result,
            ),
    {
        self.stack_top -= 1;
        self.push(result)
    }

    /// Calls the value `argument_count` slots below the top of the stack with
    /// the arguments above it.
    pub fn call(&mut self, argument_count: u8) -> (r: InterpretResult<Action>)
        requires
            old(self).wf(),
            call_ready(old(self)@, old(self).code(), argument_count),
        ensures
            final(self).wf(),
            final(self).code() == old(self).code(),
            call_outcome(old(self)@, old(self).code(), argument_count, final(self)@, r),
    {
        let callee = self.peek(argument_count as usize).clone();
        match callee {
            Value::NativeFunction(function) => {
                Ok(Action::CallNative(function, argument_count, self.stack_top - argument_count as usize))
            },
            Value::Function(function) => {
                if function.arity != argument_count {
                    return Err(ChefError::FunctionArity(function.arity, argument_count));
                }
                let line = self.code.lines[self.ip];
                let index = self.frame_count - 1;
                let ghost frames_before = self.frames@;
                let mut caller = self.frames[index].take().unwrap();
                let ghost caller_before = caller;
                caller.line = line;
                self.frames[index] = Some(caller);
                proof {
                    assert(self.frames@ =~= frames_before.update(
                        index as int,
                        Some(CallFrame { line: line, ..caller_before }),
                    ));
                }
                let pushed_frame = self.push_frame(
                    CallFrame {
                        name: function.name.clone(),
                        line: 0,
                        stack_index: self.stack_top - argument_count as usize,
                        continuation_ip: self.ip,
                    },
                );
                match pushed_frame {
                    Ok(()) => {
                        self.ip = function.ip_start;
                        Ok(Action::Continue)
                    },
                    Err(e) => Err(e),
                }
            },
            _ => Err(ChefError::InvalidCallee),
        }
    }

    fn op_constant(&mut self) -> (r: InterpretResult<Action>)
        requires
            old(self).wf(),
            just_read(old(self)@, old(self).code, 20),
        ensures
            final(self).wf(),
            final(self).code == old(self).code,
            step_outcome(at_ip(old(self)@, old(self)@.ip - 1), old(self).code, final(self)@, r),
    {
        let constant_index = self.read_byte();
        let value = self.read_constant(constant_index)?;
        self.push(value)?;
        Ok(Action::Continue)
    }

    fn op_negate(&mut self) -> (r: InterpretResult<Action>)
        requires
            old(self).wf(),
            just_read(old(self)@, old(self).code, 1),
        ensures
            final(self).wf(),
            final(self).code == old(self).code,
            step_outcome(at_ip(old(self)@, old(self)@.ip - 1), old(self).code, final(self)@, r),
    {
        let mut constant = self.pop();
        constant.negate()?;
        self.push(constant)?;
        Ok(Action::Continue)
    }

    fn op_add(&mut self) -> (r: InterpretResult<Action>)
        requires
            old(self).wf(),
            just_read(old(self)@, old(self).code, 2),
        ensures
            final(self).wf(),
            final(self).code == old(self).code,
            step_outcome(at_ip(old(self)@, old(self)@.ip - 1), old(self).code, final(self)@, r),
    {
        let b = self.pop();
        let a = self.pop();
        match (&a, &b) {
            (Value::String(a), Value::String(b)) => {
                let mut joined = a.clone();
                joined.append(b.as_str());
                self.push(Value::String(joined))?;
                Ok(Action::Continue)
            },
            _ => {
                let (x, y) = a.numeric_operands(&b, ChefError::ValueAddOperation)?;
                Ok(Action::Arithmetic(ArithmeticOperation::Add, x, y))
            },
        }
    }

    fn op_subtract(&mut self) -> (r: InterpretResult<Action>)
        requires
            old(self).wf(),
            just_read(old(self)@, old(self).code, 3),
        ensures
            final(self).wf(),
            final(self).code == old(self).code,
            step_outcome(at_ip(old(self)@, old(self)@.ip - 1), old(self).code, final(self)@, r),
    {
        let b = self.pop();
        let a = self.pop();
        let (x, y) = a.numeric_operands(&b, ChefError::ValueNumberOnlyOperation)?;
        Ok(Action::Arithmetic(ArithmeticOperation::Subtract, x, y))
    }

    fn op_multiply(&mut self) -> (r: InterpretResult<Action>)
        requires
            old(self).wf(),
            just_read(old(self)@, old(self).code, 4),
        ensures
            final(self).wf(),
            final(self).code == old(self).code,
            step_outcome(at_ip(old(self)@, old(self)@.ip - 1), old(self).code, final(self)@, r),
    {
        let b = self.pop();
        let a = self.pop();
        let (x, y) = a.numeric_operands(&b, ChefError::ValueNumberOnlyOperation)?;
        Ok(Action::Arithmetic(ArithmeticOperation::Multiply, x, y))
    }

    fn op_divide(&mut self) -> (r: InterpretResult<Action>)
        requires
            old(self).wf(),
            just_read(old(self)@, old(self).code, 5),
        ensures
            final(self).wf(),
            final(self).code == old(self).code,
            step_outcome(at_ip(old(self)@, old(self)@.ip - 1), old(self).code, final(self)@, r),
    {
        let b = self.pop();
        let a = self.pop();
        let (x, y) = a.numeric_operands(&b, ChefError::ValueNumberOnlyOperation)?;
        Ok(Action::Arithmetic(ArithmeticOperation::Divide, x, y))
    }

    fn op_nil(&mut self) -> (r: InterpretResult<Action>)
        requires
            old(self).wf(),
            just_read(old(self)@, old(self).code, 6),
        ensures
            final(self).wf(),
            final(self).code == old(self).code,
            step_outcome(at_ip(old(self)@, old(self)@.ip - 1), old(self).code, final(self)@, r),
    {
        self.push(Value::Nil)?;
        Ok(Action::Continue)
    }

    fn op_true(&mut self) -> (r: InterpretResult<Action>)
        requires
            old(self).wf(),
            just_read(old(self)@, old(self).code, 7),
        ensures
            final(self).wf(),
            final(self).code == old(self).code,
            step_outcome(at_ip(old(self)@, old(self)@.ip - 1), old(self).code, final(self)@, r),
    {
        self.push(Value::Boolean(true))?;
        Ok(Action::Continue)
    }

    fn op_false(&mut self) -> (r: InterpretResult<Action>)
        requires
            old(self).wf(),
            just_read(old(self)@, old(self).code, 8),
        ensures
            final(self).wf(),
            final(self).code == old(self).code,
            step_outcome(at_ip(old(self)@, old(self)@.ip - 1), old(self).code, final(self)@, r),
    {
        self.push(Value::Boolean(false))?;
        Ok(Action::Continue)
    }

    fn op_not(&mut self) -> (r: InterpretResult<Action>)
        requires
            old(self).wf(),
            just_read(old(self)@, old(self).code, 9),
        ensures
            final(self).wf(),
            final(self).code == old(self).code,
            step_outcome(at_ip(old(self)@, old(self)@.ip - 1), old(self).code, final(self)@, r),
    {
        let constant = self.pop();
        let result = constant.falsey();
        self.push(Value::Boolean(result))?;
        Ok(Action::Continue)
    }

    fn op_equal(&mut self) -> (r: InterpretResult<Action>)
        requires
            old(self).wf(),
            just_read(old(self)@, old(self).code, 10),
        ensures
            final(self).wf(),
            final(self).code == old(self).code,
            step_outcome(at_ip(old(self)@, old(self)@.ip - 1), old(self).code, final(self)@, r),
    {
        let b = self.pop();
        let a = self.pop();
        let result = a.is_equal(b);
        self.push(Value::Boolean(result))?;
        Ok(Action::Continue)
    }

    fn op_greater(&mut self) -> (r: InterpretResult<Action>)
        requires
            old(self).wf(),
            just_read(old(self)@, old(self).code, 11),
        ensures
            final(self).wf(),
            final(self).code == old(self).code,
            step_outcome(at_ip(old(self)@, old(self)@.ip - 1), old(self).code, final(self)@, r),
    {
        let b = self.pop();
        let a = self.pop();
        let result = a.is_greater(b)?;
        self.push(Value::Boolean(result))?;
        Ok(Action::Continue)
    }

    fn op_less(&mut self) -> (r: InterpretResult<Action>)
        requires
            old(self).wf(),
            just_read(old(self)@, old(self).code, 12),
        ensures
            final(self).wf(),
            final(self).code == old(self).code,
            step_outcome(at_ip(old(self)@, old(self)@.ip - 1), old(self).code, final(self)@, r),
    {
        let b = self.pop();
        let a = self.pop();
        let result = a.is_less(b)?;
        self.push(Value::Boolean(result))?;
        Ok(Action::Continue)
    }

    fn op_print(&mut self) -> (r: InterpretResult<Action>)
        requires
            old(self).wf(),
            just_read(old(self)@, old(self).code, 13),
        ensures
            final(self).wf(),
            final(self).code == old(self).code,
            step_outcome(at_ip(old(self)@, old(self)@.ip - 1), old(self).code, final(self)@, r),
    {
        let constant = self.pop();
        Ok(Action::Print(constant))
    }

    fn op_get_local(&mut self) -> (r: InterpretResult<Action>)
        requires
            old(self).wf(),
            just_read(old(self)@, old(self).code, 18),
        ensures
            final(self).wf(),
            final(self).code == old(self).code,
            step_outcome(at_ip(old(self)@, old(self)@.ip - 1), old(self).code, final(self)@, r),
    {
        let index = self.read_byte();
        let frame_pops = self.read_byte();
        let stack_index = match &self.frames[self.frame_count - 1 - frame_pops as usize] {
            Some(frame) => frame.stack_index + index as usize,
            None => {
                proof {
                    assert(false);
                }
                0
            },
        };
        let value = match &self.stack[stack_index] {
            Some(value) => value.clone(),
            None => {
                proof {
                    assert(false);
                }
                Value::Nil
            },
        };
        self.push(value)?;
        Ok(Action::Continue)
    }

    fn op_set_local(&mut self) -> (r: InterpretResult<Action>)
        requires
            old(self).wf(),
            just_read(old(self)@, old(self).code, 19),
        ensures
            final(self).wf(),
            final(self).code == old(self).code,
            step_outcome(at_ip(old(self)@, old(self)@.ip - 1), old(self).code, final(self)@, r),
    {
        let index = self.read_byte();
        let frame_pops = self.read_byte();
        let stack_index = match &self.frames[self.frame_count - 1 - frame_pops as usize] {
            Some(frame) => frame.stack_index + index as usize,
            None => {
                proof {
                    assert(false);
                }
                0
            },
        };
        let replacement_value = self.peek(0).clone();
        self.stack[stack_index] = Some(replacement_value);
        Ok(Action::Continue)
    }

    fn op_loop(&mut self) -> (r: InterpretResult<Action>)
        requires
            old(self).wf(),
            just_read(old(self)@, old(self).code, 23),
        ensures
            final(self).wf(),
            final(self).code == old(self).code,
            step_outcome(at_ip(old(self)@, old(self)@.ip - 1), old(self).code, final(self)@, r),
    {
        let offset = self.read_u16();
        self.ip -= offset;
        Ok(Action::Continue)
    }

    fn op_jump(&mut self) -> (r: InterpretResult<Action>)
        requires
            old(self).wf(),
            just_read(old(self)@, old(self).code, 22),
        ensures
            final(self).wf(),
            final(self).code == old(self).code,
            step_outcome(at_ip(old(self)@, old(self)@.ip - 1), old(self).code, final(self)@, r),
    {
        let offset = self.read_u16();
        self.ip += offset;
        Ok(Action::Continue)
    }

    fn op_jump_if_false(&mut self) -> (r: InterpretResult<Action>)
        requires
            old(self).wf(),
            just_read(old(self)@, old(self).code, 21),
        ensures
            final(self).wf(),
            final(self).code == old(self).code,
            step_outcome(at_ip(old(self)@, old(self)@.ip - 1), old(self).code, final(self)@, r),
    {
        let offset = self.read_u16();
        let value = self.peek(0);
        if value.falsey() {
            self.ip += offset;
        }
        Ok(Action::Continue)
    }

    fn op_call(&mut self) -> (r: InterpretResult<Action>)
        requires
            old(self).wf(),
            just_read(old(self)@, old(self).code, 24),
        ensures
            final(self).wf(),
            final(self).code == old(self).code,
            step_outcome(at_ip(old(self)@, old(self)@.ip - 1), old(self).code, final(self)@, r),
    {
        let argument_count = self.read_byte();
        self.call(argument_count)
    }

    /// Whether the slot `index` of the stack holds a value.
    fn filled(&self, index: usize) -> (r: bool)
        ensures
            r == (index < self.stack@.len() && self.stack@[index as int] is Some),
    {
        index < self.stack.len() && self.stack[index].is_some()
    }

    /// Whether the top value can be popped.
    fn can_pop_now(&self) -> (r: bool)
        ensures
            r == can_pop(self@),
    {
        self.stack_top >= 1 && self.stack_top <= self.stack.len() && self.filled(
            self.stack_top - 1,
        )
    }

    /// Whether the instruction at the machine's position can run without
    /// reading outside the code, the stack or the frames.
    pub fn can_step(&self) -> (r: bool)
        requires
            self.wf(),
        ensures
            r == can_step(self@, self.code()),
    {
        let n = self.code.code.len();
        let ip = self.ip;
        if ip >= n {
            return false;
        }
        let b = self.code.code[ip];
        if !(b < OPCODE_COUNT && b != 15 && b != 16 && b != 17 && b != 25) {
            return false;
        }
        let top = self.stack_top;
        let frame_count = self.frame_count;
        if b == 0 {
            if !self.can_pop_now() || frame_count < 1 || frame_count > self.frames.len() {
                return false;
            }
            match &self.frames[frame_count - 1] {
                None => false,
                Some(frame) => {
                    if frame_count > 1 {
                        let index = frame.stack_index;
                        index >= 1 && index <= self.stack.len() && index - 1 != top - 1
                            && self.filled(index - 1)
                    } else {
                        true
                    }
                },
            }
        } else if b == 20 {
            ip + 1 < n
        } else if b == 1 || b == 9 || b == 13 || b == 14 {
            self.can_pop_now()
        } else if (2 <= b && b <= 5) || (10 <= b && b <= 12) {
            self.can_pop_now() && top >= 2 && self.filled(top - 2)
        } else if 6 <= b && b <= 8 {
            true
        } else if b == 18 || b == 19 {
            if n - ip <= 2 {
                return false;
            }
            let index = self.code.code[ip + 1];
            let frame_pops = self.code.code[ip + 2] as usize;
            if frame_count < 1 + frame_pops || frame_count > self.frames.len() {
                return false;
            }
            match &self.frames[frame_count - 1 - frame_pops] {
                None => false,
                Some(frame) => {
                    let base = frame.stack_index;
                    if base >= self.stack.len() || (index as usize) >= self.stack.len() - base {
                        return false;
                    }
                    let slot = base + index as usize;
                    if b == 18 {
                        self.filled(slot)
                    } else {
                        self.can_pop_now()
                    }
                },
            }
        } else if b == 21 || b == 22 || b == 23 {
            if n - ip <= 2 {
                return false;
            }
            let offset = self.code.code[ip + 1] as usize + 256 * self.code.code[ip + 2] as usize;
            if b == 21 && !self.can_pop_now() {
                return false;
            }
            if b == 23 {
                offset <= ip + 3
            } else {
                ip + 3 <= usize::MAX - offset
            }
        } else {
            if ip + 1 >= n {
                return false;
            }
            let argc = self.code.code[ip + 1] as usize;
            if argc + 1 > top || top > self.stack.len() || !self.filled(top - 1 - argc) {
                return false;
            }
            let calls_function = match &self.stack[top - 1 - argc] {
                Some(Value::Function(f)) => f.arity as usize == argc,
                _ => false,
            };
            if calls_function {
                ip + 2 < n && frame_count >= 1 && frame_count <= self.frames.len()
                    && self.frames[frame_count - 1].is_some()
            } else {
                true
            }
        }
    }

    /// Whether the machine can list its calls in progress: it is inside a
    /// call, every frame up to the current one is in use, and its position
    /// has a line.
    pub fn can_trace(&self) -> (r: bool)
        requires
            self.wf(),
        ensures
            r == (1 <= self@.frame_count && (forall|k: int|
                0 <= k < self@.frame_count ==> self@.frames[k] is Some) && self@.ip
                < self.code().lines@.len()),
    {
        if self.frame_count < 1 || self.ip >= self.code.lines.len() {
            return false;
        }
        let mut k: usize = 0;
        while k < self.frame_count
            invariant
                self.wf(),
                k <= self.frame_count,
                forall|j: int| 0 <= j < k ==> self.frames@[j] is Some,
            decreases self.frame_count - k,
        {
            if self.frames[k].is_none() {
                return false;
            }
            k = k + 1;
        }
        true
    }

    /// Runs the instruction at the machine's position.
    pub fn step(&mut self) -> (r: InterpretResult<Action>)
        requires
            old(self).wf(),
            can_step(old(self)@, old(self).code()),
        ensures
            final(self).wf(),
            final(self).code() == old(self).code(),
            step_outcome(old(self)@, old(self).code(), final(self)@, r),
    {
        let byte = self.read_byte();
        match byte {
            0 => {
                let result = self.pop();
                let frame = self.pop_frame();
                if self.frame_count == 0 {
                    return Ok(Action::Finished);
                }
                self.stack_top = frame.stack_index;
                self.ip = frame.continuation_ip;
                let _ = self.pop();
                self.push(result)?;
                Ok(Action::Continue)
            },
            20 => self.op_constant(),
            1 => self.op_negate(),
            2 => self.op_add(),
            3 => self.op_subtract(),
            4 => self.op_multiply(),
            5 => self.op_divide(),
            6 => self.op_nil(),
            7 => self.op_true(),
            8 => self.op_false(),
            9 => self.op_not(),
            10 => self.op_equal(),
            11 => self.op_greater(),
            12 => self.op_less(),
            13 => self.op_print(),
            14 => {
                let _ = self.pop();
                Ok(Action::Continue)
            },
            18 => self.op_get_local(),
            19 => self.op_set_local(),
            21 => self.op_jump_if_false(),
            22 => self.op_jump(),
            23 => self.op_loop(),
            _ => self.op_call(),
        }
    }
}

} // verus!
