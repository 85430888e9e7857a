//! Mouse kind tags as plain numbers.

use vstd::prelude::*;

verus! {

pub const DOWN: i64 = 0;
pub const UP: i64 = 1;
pub const MOVE: i64 = 2;
pub const DRAG: i64 = 3;
pub const SCROLL_UP: i64 = 4;
pub const SCROLL_DOWN: i64 = 5;

} // verus!
