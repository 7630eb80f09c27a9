use vstd::prelude::*;
use vstd::string::StringExecFns;

verus! {

/// Why interpreting a program failed.
#[derive(Debug, Clone, Copy, PartialEq, Eq, Structural)]
pub enum ChefError {
    Compile,
    OutOfBounds,
    StackOverflow,
    InvalidCallee,
    FunctionArity(u8, u8),
    ValueNegationOperation,
    ValueNumberOnlyOperation,
    ValueAddOperation,
}

/// The result of a step of interpretation.
pub type InterpretResult<T> = Result<T, ChefError>;

/// The decimal text of a single digit.
pub open spec fn digit_text(d: nat) -> Seq<char> {
    if d == 0 {
        "0"@
    } else if d == 1 {
        "1"@
    } else if d == 2 {
        "2"@
    } else if d == 3 {
        "3"@
    } else if d == 4 {
        "4"@
    } else if d == 5 {
        "5"@
    } else if d == 6 {
        "6"@
    } else if d == 7 {
        "7"@
    } else if d == 8 {
        "8"@
    } else {
        "9"@
    }
}

/// The decimal text of `n`, without leading zeros.
pub open spec fn decimal_text(n: nat) -> Seq<char>
    decreases n,
{
    if n < 10 {
        digit_text(n)
    } else {
        decimal_text(n / 10) + digit_text(n % 10)
    }
}

/// The message shown for `error`.
pub open spec fn error_message(error: ChefError) -> Seq<char> {
    match error {
        ChefError::Compile => "Could not compile."@,
        ChefError::OutOfBounds => "Index out of bounds."@,
        ChefError::StackOverflow => "Stack overflow."@,
        ChefError::InvalidCallee => "Can only call functions."@,
        ChefError::FunctionArity(expected, got) => "Expected "@ + decimal_text(expected as nat)
            + " arguments but got "@ + decimal_text(got as nat) + "."@,
        ChefError::ValueNegationOperation => "Operand must be a number."@,
        ChefError::ValueNumberOnlyOperation => "Operands must be numbers."@,
        ChefError::ValueAddOperation => "Operands must be two numbers or two strings."@,
    }
}

fn digit_str(d: u8) -> (s: &'static str)
    requires
        d < 10,
    ensures
        s@ == digit_text(d as nat),
{
    if d == 0 {
        "0"
    } else if d == 1 {
        "1"
    } else if d == 2 {
        "2"
    } else if d == 3 {
        "3"
    } else if d == 4 {
        "4"
    } else if d == 5 {
        "5"
    } else if d == 6 {
        "6"
    } else if d == 7 {
        "7"
    } else if d == 8 {
        "8"
    } else {
        "9"
    }
}

/// Appends the decimal text of `n` to `out`.
pub(crate) fn push_decimal(out: &mut String, n: u8)
    ensures
        final(out)@ == old(out)@ + decimal_text(n as nat),
    decreases n,
{
    if n < 10 {
        out.append(digit_str(n));
    } else {
        push_decimal(out, n / 10);
        out.append(digit_str(n % 10));
        proof {
            assert(final(out)@ =~= old(out)@ + decimal_text(n as nat));
        }
    }
}

/// Appends the decimal text of `n` to `out`.
pub(crate) fn push_decimal_usize(out: &mut String, n: usize)
    ensures
        final(out)@ == old(out)@ + decimal_text(n as nat),
    decreases n,
{
    if n < 10 {
        out.append(digit_str(n as u8));
    } else {
        push_decimal_usize(out, n / 10);
        out.append(digit_str((n % 10) as u8));
        proof {
            assert(final(out)@ =~= old(out)@ + decimal_text(n as nat));
        }
    }
}

impl ChefError {
    /// The message shown for this error.
    pub fn message(&self) -> (text: String)
        ensures
            text@ == error_message(*self),
    {
        match self {
            ChefError::Compile => String::from_str("Could not compile."),
            ChefError::OutOfBounds => String::from_str("Index out of bounds."),
            ChefError::StackOverflow => String::from_str("Stack overflow."),
            ChefError::InvalidCallee => String::from_str("Can only call functions."),
            ChefError::FunctionArity(expected, got) => {
                let mut text = String::from_str("Expected ");
                push_decimal(&mut text, *expected);
                text.append(" arguments but got ");
                push_decimal(&mut text, *got);
                text.append(".");
                proof {
                    assert(text@ =~= error_message(*self));
                }
                text
            },
            ChefError::ValueNegationOperation => String::from_str("Operand must be a number."),
            ChefError::ValueNumberOnlyOperation => String::from_str("Operands must be numbers."),
            ChefError::ValueAddOperation => String::from_str(
                "Operands must be two numbers or two strings.",
            ),
        }
    }
}

} // verus!
