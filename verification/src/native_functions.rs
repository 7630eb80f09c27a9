use vstd::prelude::*;

use crate::value::{NativeFunctionIndex, Value};

verus! {

/// Number of native functions the interpreter provides.
pub const NATIVE_FUNCTION_COUNT: usize = 2;

/// Index of the native function that reads the clock.
pub const TIME_FUNCTION: NativeFunctionIndex = 0;

/// Index of the native function that does nothing.
pub const STIR_FUNCTION: NativeFunctionIndex = 1;

/// The native functions, by the name under which scripts see them and the
/// index under which the interpreter calls them: `time` and `stir`.
pub fn declare_native_functions() -> (natives: [(&'static str, NativeFunctionIndex); 2])
    ensures
        natives@[0].0@ == "time"@,
        natives@[0].1 == TIME_FUNCTION,
        natives@[1].0@ == "stir"@,
        natives@[1].1 == STIR_FUNCTION,
{
    [("time", TIME_FUNCTION), ("stir", STIR_FUNCTION)]
}

/// The native function `stir`: whatever it is given, it gives back `nil`.
pub fn do_nothing(_arg_count: u8, _ip: usize) -> (v: Value)
    ensures
        v == Value::Nil,
{
    Value::Nil
}

} // verus!
