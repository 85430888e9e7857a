//! Key kind tags as plain numbers, as console key records report them.

use vstd::prelude::*;

verus! {

pub const CHAR: i64 = 0;
pub const ENTER: i64 = 1;
pub const ESCAPE: i64 = 2;
pub const TAB: i64 = 3;
pub const BACKSPACE: i64 = 4;
pub const DELETE: i64 = 5;
pub const ARROW_UP: i64 = 6;
pub const ARROW_DOWN: i64 = 7;
pub const ARROW_LEFT: i64 = 8;
pub const ARROW_RIGHT: i64 = 9;
pub const HOME: i64 = 10;
pub const END: i64 = 11;
pub const PAGE_UP: i64 = 12;
pub const PAGE_DOWN: i64 = 13;
pub const INSERT: i64 = 14;
pub const F1: i64 = 15;
pub const F2: i64 = 16;
pub const F3: i64 = 17;
pub const F4: i64 = 18;
pub const F5: i64 = 19;
pub const F6: i64 = 20;
pub const F7: i64 = 21;
pub const F8: i64 = 22;
pub const F9: i64 = 23;
pub const F10: i64 = 24;
pub const F11: i64 = 25;
pub const F12: i64 = 26;
pub const UNKNOWN: i64 = 27;

} // verus!
