//! Width error codes (61xx band). The numbers are part of the surface.

use vstd::prelude::*;

verus! {

/// An argument had the wrong type.
pub const WIDTH_INVALID_ARG: u32 = 6101;
/// The host could not build the result value.
pub const WIDTH_BUILD_VALUE: u32 = 6102;
/// A panic was caught at the boundary.
pub const WIDTH_PANIC: u32 = 6103;

} // verus!
