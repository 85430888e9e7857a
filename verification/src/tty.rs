//! `isTerminal`: the stream names it accepts and its error codes.

pub mod err;

use vstd::prelude::*;

use crate::error::CallError;
use crate::text::{push_str, str_eq};

verus! {

/// A standard stream.
#[derive(Debug, Clone, Copy, PartialEq, Eq, Structural)]
pub enum StreamKind {
    Stdin,
    Stdout,
    Stderr,
}

/// The stream a name stands for: exactly `stdin`, `stdout` or `stderr`.
pub open spec fn stream_of(name: Seq<char>) -> Option<StreamKind> {
    if name == "stdin"@ {
        Some(StreamKind::Stdin)
    } else if name == "stdout"@ {
        Some(StreamKind::Stdout)
    } else if name == "stderr"@ {
        Some(StreamKind::Stderr)
    } else {
        None
    }
}

/// The stream a name stands for (case-sensitive), or `None`.
pub fn parse_stream_kind(name: &str) -> (r: Option<StreamKind>)
    ensures
        r == stream_of(name@),
{
    if str_eq(name, "stdin") {
        Some(StreamKind::Stdin)
    } else if str_eq(name, "stdout") {
        Some(StreamKind::Stdout)
    } else if str_eq(name, "stderr") {
        Some(StreamKind::Stderr)
    } else {
        None
    }
}

/// The error for a name that is no stream.
pub fn invalid_stream_failure(name: &str) -> (f: CallError)
    ensures
        f.code == err::IS_TERMINAL_INVALID_STREAM,
        f.message@ == "IsTerminalInvalidStream: expected stdin|stdout|stderr, got "@ + name@,
{
    let mut m = String::new();
    push_str(&mut m, "IsTerminalInvalidStream: expected stdin|stdout|stderr, got ");
    push_str(&mut m, name);
    CallError { code: err::IS_TERMINAL_INVALID_STREAM, message: m }
}

} // verus!
