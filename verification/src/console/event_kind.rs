//! Event kind tags as plain numbers.

use vstd::prelude::*;

verus! {

pub const KEY: i64 = 0;
pub const MOUSE: i64 = 1;
pub const RESIZE: i64 = 2;

} // verus!
