//! Kinds of diff operations.

use vstd::prelude::*;

verus! {

/// Move the cursor to (`col`, `row`).
pub const MOVE_TO: i64 = 0;

/// Write `text` with `style` at (`col`, `row`).
pub const WRITE: i64 = 1;

/// Clear the current line.
pub const CLEAR_LINE: i64 = 2;

/// Show the cursor.
pub const SHOW_CURSOR: i64 = 3;

/// Hide the cursor.
pub const HIDE_CURSOR: i64 = 4;

} // verus!
