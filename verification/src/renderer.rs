//! Virtual screen buffer and its renderer: buffer state and fingerprints,
//! cell operations, blitting, allocation and the frame differ, with the
//! host packs they are read from and written to, and the entries over
//! them.

pub mod state;
pub mod ops;
pub mod pack;
pub mod calls;
pub mod diff;
pub mod blit;
pub mod allocation;
pub mod laws;
