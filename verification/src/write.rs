//! Writing to the terminal: the error codes of the `write` entry point.

pub mod err;
