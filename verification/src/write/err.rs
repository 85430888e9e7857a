//! `write` error codes (5xxx band). The numbers are part of the surface.

use vstd::prelude::*;

verus! {

/// Writing or flushing stdout failed.
pub const WRITE_FAILED: u32 = 5001;
/// The host could not build the result value.
pub const WRITE_BUILD_VALUE: u32 = 5002;
/// A panic was caught at the boundary.
pub const WRITE_PANIC: u32 = 5003;

} // verus!
