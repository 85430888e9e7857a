//! Terminal-size error codes (2xxx band). The numbers are part of the surface.

use vstd::prelude::*;

verus! {

/// stdout is not a TTY.
pub const TERMINAL_SIZE_NOT_A_TTY: u32 = 2001;
/// The size query failed or reported a zero dimension.
pub const TERMINAL_SIZE_IOCTL: u32 = 2002;

} // verus!
