//! `isTerminal` error codes (21xx band). The numbers are part of the surface.

use vstd::prelude::*;

verus! {

/// The stream name is not `stdin`, `stdout` or `stderr`.
pub const IS_TERMINAL_INVALID_STREAM: u32 = 2101;
/// The host could not build the result value.
pub const IS_TERMINAL_BUILD_VALUE: u32 = 2102;

} // verus!
