//! Renderer error codes.

use vstd::prelude::*;

verus! {

/// An argument had the wrong shape or type.
pub const RENDERER_INVALID_ARG: u32 = 6001;

/// A cell coordinate lies outside the buffer.
pub const RENDERER_OUT_OF_BOUNDS: u32 = 6002;

/// Buffer dimensions are not allowed.
pub const RENDERER_INVALID_SIZE: u32 = 6003;

/// The host could not build the result value.
pub const RENDERER_BUILD_VALUE: u32 = 6004;

/// A panic was caught at the boundary.
pub const RENDERER_PANIC: u32 = 6005;

} // verus!
