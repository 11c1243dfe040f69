//! The native functions that the toolchain offers Kome programs.
use vstd::prelude::*;

verus! {

/// The name under which `write_line` is registered.
pub const WRITE_LINE_NATIVE: &'static str = "core.write_line";

/// The value that `core.write_line` prints: its only argument.  Any other
/// number of arguments is refused.
pub fn write_line_argument<V>(arguments: &[V]) -> (value: Result<&V, String>)
    ensures
        arguments@.len() == 1 ==> (value matches Ok(v) && *v == arguments@[0]),
        arguments@.len() != 1 ==> (value matches Err(e)
            && e@ == "core.write_line expects exactly one argument"@),
{
    if arguments.len() == 1 {
        Ok(&arguments[0])
    } else {
        Err(String::from_str("core.write_line expects exactly one argument"))
    }
}

} // verus!
