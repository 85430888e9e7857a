//! Raw-mode error codes (3xxx band). The numbers are part of the surface.

use vstd::prelude::*;

verus! {

/// stdin is not a TTY.
pub const RAW_MODE_NOT_A_TTY: u32 = 3001;
/// Raw mode is already active.
pub const RAW_MODE_ALREADY_ACTIVE: u32 = 3002;
/// Raw mode is not active.
pub const RAW_MODE_NOT_ACTIVE: u32 = 3003;
/// Saving or switching the terminal settings failed.
pub const RAW_MODE_ENTER_FAILED: u32 = 3004;
/// Restoring the terminal settings failed.
pub const RAW_MODE_LEAVE_FAILED: u32 = 3005;

} // verus!
