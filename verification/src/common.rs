use vstd::prelude::*;
use vstd::string::StringExecFns;

verus! {

/// Largest value of a byte, as a `usize`.
pub const U8_MAX_USIZE: usize = 255;

/// Number of distinct byte values.
pub const U8_COUNT_USIZE: usize = 256;

/// Most call frames that may be live at once.
pub const CALL_FRAMES_MAX_COUNT: usize = 64;

/// Most locals a single function may declare.
pub const LOCALS_MAX_COUNT: usize = 256;

/// Most upvalues a single closure may capture.
pub const UPVALUES_MAX_COUNT: usize = 256;

/// Most constants a single chunk may hold.
pub const CONSTANTS_MAX_COUNT: usize = 256;

/// Most values the value stack may hold.
pub const STACK_VALUES_MAX_COUNT: usize = 16384;

/// Most parameters a function may declare.
pub const FUNCTION_ARITY_MAX_COUNT: u8 = 255;

/// Longest jump an operation can encode.
pub const JUMP_MAX_COUNT: u8 = 255;

/// Longest jump an operation can encode, as a `usize`.
pub const JUMP_MAX_COUNT_USIZE: usize = 255;

/// Name of a class initialiser method.
pub const INIT_STRING: &'static str = "init";

/// Name under which a superclass is bound.
pub const SUPER_STRING: &'static str = "super";

/// How a function named `name` is printed.
pub open spec fn function_display(name: Seq<char>) -> Seq<char> {
    if name.len() == 0 {
        "<script>"@
    } else {
        "<fn "@ + name + ">"@
    }
}

/// Text shown for a function value: `<script>` for the top-level script,
/// `<fn name>` otherwise.
pub fn print_function(name: &str) -> (res: String)
    ensures
        res@ == function_display(name@),
{
    if name.is_empty() {
        String::from_str("<script>")
    } else {
        let mut res = String::from_str("<fn ");
        res.append(name);
        res.append(">");
        res
    }
}

} // verus!
