use std::rc::Rc;
use vstd::prelude::*;

use crate::error::{ChefError, InterpretResult};
use crate::function::Function;
use crate::lox::objects::FunctionObject;

verus! {

/// Index of a function among the compiled functions.
pub type FunctionIndex = usize;

/// Index of a native function among those the interpreter provides.
pub type NativeFunctionIndex = usize;

/// The sign bit of an IEEE-754 binary64 number.
pub const SIGN_BIT: u64 = 0x8000_0000_0000_0000;

/// The exponent bits of an IEEE-754 binary64 number.
pub const EXPONENT_BITS: u64 = 0x7ff0_0000_0000_0000;

/// The fraction bits of an IEEE-754 binary64 number.
pub const FRACTION_BITS: u64 = 0x000f_ffff_ffff_ffff;

/// The four arithmetic operators, which act on two numbers.
#[derive(Debug, Clone, Copy, PartialEq, Eq, Structural)]
pub enum ArithmeticOperation {
    Add,
    Subtract,
    Multiply,
    Divide,
}

/// A value of the language. A number is held as the bit pattern of an
/// IEEE-754 binary64 number.
#[derive(Debug)]
pub enum Value {
    Nil,
    Number(u64),
    Boolean(bool),
    String(String),
    Function(Rc<Function>),
    NativeFunction(NativeFunctionIndex),
    FunctionObject(Rc<FunctionObject>),
}

/// The number with bit pattern `bits` is not a number (NaN).
pub open spec fn number_is_nan(bits: u64) -> bool {
    (bits & EXPONENT_BITS) == EXPONENT_BITS && (bits & FRACTION_BITS) != 0
}

/// The number with bit pattern `bits` is a zero of either sign.
pub open spec fn number_is_zero(bits: u64) -> bool {
    (bits & !SIGN_BIT) == 0
}

/// The magnitude bits of a number: its bit pattern without the sign bit.
pub open spec fn magnitude(bits: u64) -> u64 {
    bits & !SIGN_BIT
}

/// The number is negative in sign (including negative zero).
pub open spec fn sign_is_negative(bits: u64) -> bool {
    (bits & SIGN_BIT) != 0
}

/// IEEE-754 equality of two numbers: NaN equals nothing, the two zeros are
/// equal, and otherwise numbers are equal when their bit patterns are.
pub open spec fn number_eq(a: u64, b: u64) -> bool {
    !number_is_nan(a) && !number_is_nan(b) && (a == b || (number_is_zero(a) && number_is_zero(b)))
}

/// IEEE-754 "less than": false when either is NaN or both are zeros; a
/// negative number is below a positive one; among positive numbers the larger
/// magnitude is larger, among negative ones the smaller.
pub open spec fn number_lt(a: u64, b: u64) -> bool {
    &&& !number_is_nan(a)
    &&& !number_is_nan(b)
    &&& !(number_is_zero(a) && number_is_zero(b))
    &&& {
        ||| (sign_is_negative(a) && !sign_is_negative(b))
        ||| (!sign_is_negative(a) && !sign_is_negative(b) && magnitude(a) < magnitude(b))
        ||| (sign_is_negative(a) && sign_is_negative(b) && magnitude(a) > magnitude(b))
    }
}

/// A value counts as false: `nil` and `false` do, everything else does not.
pub open spec fn spec_falsey(v: Value) -> bool {
    match v {
        Value::Boolean(b) => !b,
        Value::Nil => true,
        _ => false,
    }
}

/// Equality of two values that are not both functions: same kind and equal
/// contents, numbers compared as IEEE-754 numbers.
pub open spec fn values_equal(a: Value, b: Value) -> bool {
    match (a, b) {
        (Value::Nil, Value::Nil) => true,
        (Value::Boolean(x), Value::Boolean(y)) => x == y,
        (Value::Number(x), Value::Number(y)) => number_eq(x, y),
        (Value::String(x), Value::String(y)) => x@ == y@,
        (Value::NativeFunction(x), Value::NativeFunction(y)) => x == y,
        _ => false,
    }
}

/// Comparing two values gives the same answer in either order.
pub proof fn law_equality_is_symmetric(a: Value, b: Value)
    ensures
        values_equal(a, b) == values_equal(b, a),
{
}

/// Every value but a number that is not a number (NaN) equals itself.
pub proof fn law_equality_is_reflexive(a: Value)
    requires
        !(a matches Value::Number(bits) && number_is_nan(bits)),
        !(a is Function),
        !(a is FunctionObject),
    ensures
        values_equal(a, a),
{
}

/// Negating a number twice gives the number back.
pub proof fn law_negation_undoes_itself(bits: u64)
    ensures
        (bits ^ SIGN_BIT) ^ SIGN_BIT == bits,
{
    assert((bits ^ 0x8000_0000_0000_0000u64) ^ 0x8000_0000_0000_0000u64 == bits) by (bit_vector);
}

/// What comparing `a` with `b` may give: two functions, or two compiled
/// function objects, are equal only if they are the same one; other values
/// compare by `values_equal`.
pub open spec fn equality_outcome(a: Value, b: Value, r: bool) -> bool {
    match (a, b) {
        (Value::Function(f), Value::Function(g)) => r ==> f == g,
        (Value::FunctionObject(f), Value::FunctionObject(g)) => r ==> f == g,
        _ => r == values_equal(a, b),
    }
}

/// Another handle on the same allocation, by `Rc::clone`: it holds the same
/// value.
#[verifier::external_body]
fn shared<T>(f: &Rc<T>) -> (r: Rc<T>)
    ensures
        r == *f,
{
    Rc::clone(f)
}

/// Whether two handles point to the same allocation, by `Rc::ptr_eq`. Handles
/// on one allocation hold one value; two separate allocations with equal
/// contents compare unequal, which is left unsaid.
#[verifier::external_body]
fn same_allocation<T>(a: &Rc<T>, b: &Rc<T>) -> (r: bool)
    ensures
        r ==> *a == *b,
{
    Rc::ptr_eq(a, b)
}

fn bits_is_nan(bits: u64) -> (r: bool)
    ensures
        r == number_is_nan(bits),
{
    (bits & EXPONENT_BITS) == EXPONENT_BITS && (bits & FRACTION_BITS) != 0
}

/// IEEE-754 equality of two numbers given by their bit patterns.
pub fn numbers_equal(a: u64, b: u64) -> (r: bool)
    ensures
        r == number_eq(a, b),
{
    !bits_is_nan(a) && !bits_is_nan(b) && (a == b || ((a & !SIGN_BIT) == 0 && (b & !SIGN_BIT)
        == 0))
}

/// IEEE-754 "less than" of two numbers given by their bit patterns.
pub fn number_less(a: u64, b: u64) -> (r: bool)
    ensures
        r == number_lt(a, b),
{
    if bits_is_nan(a) || bits_is_nan(b) {
        return false;
    }
    let ma = a & !SIGN_BIT;
    let mb = b & !SIGN_BIT;
    if ma == 0 && mb == 0 {
        return false;
    }
    let na = (a & SIGN_BIT) != 0;
    let nb = (b & SIGN_BIT) != 0;
    (na && !nb) || (!na && !nb && ma < mb) || (na && nb && ma > mb)
}

impl Clone for Value {
    fn clone(&self) -> (r: Self)
        ensures
            r == *self,
    {
        match self {
            Value::Nil => Value::Nil,
            Value::Number(n) => Value::Number(*n),
            Value::Boolean(b) => Value::Boolean(*b),
            Value::String(s) => Value::String(s.clone()),
            Value::Function(f) => Value::Function(shared(f)),
            Value::NativeFunction(i) => Value::NativeFunction(*i),
            Value::FunctionObject(f) => Value::FunctionObject(shared(f)),
        }
    }
}

impl Value {
    /// Negates a number in place by flipping its sign bit; any other value is
    /// an error and stays as it is.
    pub fn negate(&mut self) -> (r: InterpretResult<()>)
        ensures
            match *old(self) {
                Value::Number(n) => r is Ok && *final(self) == Value::Number(n ^ SIGN_BIT),
                _ => r == Err::<(), ChefError>(ChefError::ValueNegationOperation) && *final(self)
                    == *old(self),
            },
    {
        match self {
            Value::Number(number) => *number = *number ^ SIGN_BIT,
            _ => return Err(ChefError::ValueNegationOperation),
        };
        Ok(())
    }

    /// The bit patterns of two numbers that an arithmetic operator combines;
    /// `mismatch` is the error when either operand is not a number.
    pub fn numeric_operands(&self, rhs: &Value, mismatch: ChefError) -> (r: InterpretResult<
        (u64, u64),
    >)
        ensures
            match (*self, *rhs) {
                (Value::Number(a), Value::Number(b)) => r == Ok::<(u64, u64), ChefError>((a, b)),
                _ => r == Err::<(u64, u64), ChefError>(mismatch),
            },
    {
        match (self, rhs) {
            (Value::Number(a), Value::Number(b)) => Ok((*a, *b)),
            _ => Err(mismatch),
        }
    }

    /// Whether the value counts as false.
    pub fn falsey(&self) -> (r: bool)
        ensures
            r == spec_falsey(*self),
    {
        match self {
            Value::Boolean(boolean) => !*boolean,
            Value::Nil => true,
            _ => false,
        }
    }

    /// Whether the value equals `rhs`; two functions are equal when they are
    /// the same function.
    pub fn is_equal(&self, rhs: Self) -> (r: bool)
        ensures
            equality_outcome(*self, rhs, r),
    {
        match (&rhs, self) {
            (Value::Nil, Value::Nil) => true,
            (Value::Boolean(a), Value::Boolean(b)) => *a == *b,
            (Value::Number(a), Value::Number(b)) => numbers_equal(*b, *a),
            (Value::String(a), Value::String(b)) => {
                let r = *a == *b;
                r
            },
            (Value::NativeFunction(a), Value::NativeFunction(b)) => *a == *b,
            (Value::Function(a), Value::Function(b)) => same_allocation(b, a),
            (Value::FunctionObject(a), Value::FunctionObject(b)) => same_allocation(b, a),
            _ => false,
        }
    }

    /// Whether this number is greater than `rhs`; both must be numbers.
    pub fn is_greater(&self, rhs: Self) -> (r: InterpretResult<bool>)
        ensures
            match (*self, rhs) {
                (Value::Number(a), Value::Number(b)) => r == Ok::<bool, ChefError>(number_lt(b, a)),
                _ => r == Err::<bool, ChefError>(ChefError::ValueNumberOnlyOperation),
            },
    {
        match (self, rhs) {
            (Value::Number(a), Value::Number(b)) => Ok(number_less(b, *a)),
            _ => Err(ChefError::ValueNumberOnlyOperation),
        }
    }

    /// Whether this number is less than `rhs`; both must be numbers.
    pub fn is_less(&self, rhs: Self) -> (r: InterpretResult<bool>)
        ensures
            match (*self, rhs) {
                (Value::Number(a), Value::Number(b)) => r == Ok::<bool, ChefError>(number_lt(a, b)),
                _ => r == Err::<bool, ChefError>(ChefError::ValueNumberOnlyOperation),
            },
    {
        match (self, rhs) {
            (Value::Number(a), Value::Number(b)) => Ok(number_less(*a, b)),
            _ => Err(ChefError::ValueNumberOnlyOperation),
        }
    }
}

} // verus!
