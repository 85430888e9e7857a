//! `readKey` error codes (1xxx band). The numbers are part of the surface.

use vstd::prelude::*;

verus! {

/// stdin is not a TTY.
pub const READ_KEY_NOT_A_TTY: u32 = 1001;
/// Raw mode could not be entered, or the read itself failed.
pub const READ_KEY_RAW_MODE: u32 = 1002;
/// stdin reached end of file.
pub const READ_KEY_EOF: u32 = 1003;
/// The read was interrupted by a signal.
pub const READ_KEY_INTERRUPTED: u32 = 1004;
/// A panic was caught at the boundary.
pub const READ_KEY_PANIC: u32 = 1005;
/// A second `readKey` call started while one was in flight.
pub const READ_KEY_INVALID_STATE: u32 = 1006;

} // verus!
