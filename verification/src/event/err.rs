//! `readEvent` error codes (4xxx band). The numbers are part of the surface.

use vstd::prelude::*;

verus! {

/// `readEvent` was called without raw mode active.
pub const READ_EVENT_NOT_IN_RAW_MODE: u32 = 4001;
/// stdin is not a TTY.
pub const READ_EVENT_NOT_A_TTY: u32 = 4002;
/// The read failed.
pub const READ_EVENT_READ_FAILED: u32 = 4003;
/// stdin reached end of file.
pub const READ_EVENT_EOF: u32 = 4004;
/// The read was interrupted by a signal other than a resize.
pub const READ_EVENT_INTERRUPTED: u32 = 4005;
/// A panic was caught at the boundary.
pub const READ_EVENT_PANIC: u32 = 4006;
/// The resize notification could not be set up.
pub const READ_EVENT_RESIZE_INIT_FAILED: u32 = 4007;

} // verus!
