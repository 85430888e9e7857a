//! Error codes that only the Windows console reports.

use vstd::prelude::*;

verus! {

/// The terminal size could not be read (VT mode unavailable).
pub const TERMINAL_SIZE_UNSUPPORTED: u32 = 2003;
/// Reading a console input record failed.
pub const READ_KEY_READ: u32 = 1005;
/// Keys cannot be read (VT mode unavailable).
pub const READ_KEY_UNSUPPORTED: u32 = 1007;
/// A panic was caught at the boundary.
pub const READ_KEY_PANIC: u32 = 1008;

} // verus!
