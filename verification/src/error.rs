//! The error a failed call reports to the host.

use vstd::prelude::*;

verus! {

/// A failed call: its error code and message.
#[derive(Debug)]
pub struct CallError {
    pub code: u32,
    pub message: String,
}

} // verus!
