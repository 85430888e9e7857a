//! Terminal size: what a size query came to and the error it reports.

pub mod err;

use vstd::prelude::*;

use crate::error::CallError;
use crate::text::{decimal, push_decimal, push_str};

verus! {

/// What asking stdout for its size came to.
#[derive(Debug, Clone, Copy, PartialEq, Eq, Structural)]
pub enum SizeOutcome {
    /// The size in cells, both at least 1.
    Success { cols: i64, rows: i64 },
    /// stdout is not a TTY.
    NotATty,
    /// The query failed with this errno.
    IoctlFailed(i32),
    /// The query reported a zero dimension; no default size is made up.
    DegenerateZero { ws_col: u16, ws_row: u16 },
}

/// The outcome of a size query: not a TTY first, then the query's own
/// failure, then a zero dimension; otherwise the size.
pub fn classify_size(is_tty: bool, query: Result<(u16, u16), i32>) -> (o: SizeOutcome)
    ensures
        !is_tty ==> o == SizeOutcome::NotATty,
        is_tty ==> o == match query {
            Err(e) => SizeOutcome::IoctlFailed(e),
            Ok((c, r)) => if c == 0 || r == 0 {
                SizeOutcome::DegenerateZero { ws_col: c, ws_row: r }
            } else {
                SizeOutcome::Success { cols: c as i64, rows: r as i64 }
            },
        },
{
    if !is_tty {
        return SizeOutcome::NotATty;
    }
    match query {
        Err(e) => SizeOutcome::IoctlFailed(e),
        Ok((c, r)) => if c == 0 || r == 0 {
            SizeOutcome::DegenerateZero { ws_col: c, ws_row: r }
        } else {
            SizeOutcome::Success { cols: c as i64, rows: r as i64 }
        },
    }
}

/// The error an outcome reports; `None` for a size.
pub fn size_failure(o: SizeOutcome) -> (r: Option<CallError>)
    ensures
        match o {
            SizeOutcome::Success { .. } => r is None,
            SizeOutcome::NotATty => r matches Some(f) && f.code == err::TERMINAL_SIZE_NOT_A_TTY
                && f.message@ == "TerminalSizeNotATty: stdout is not a TTY"@,
            SizeOutcome::IoctlFailed(e) => r matches Some(f) && f.code == err::TERMINAL_SIZE_IOCTL
                && f.message@ == "TerminalSizeIoctl: ioctl(TIOCGWINSZ) failed (errno "@ + decimal(
                e as int,
            ) + ")"@,
            SizeOutcome::DegenerateZero { ws_col, ws_row } => r matches Some(f) && f.code
                == err::TERMINAL_SIZE_IOCTL && f.message@ == "TerminalSizeIoctl: kernel returned ws_col="@
                + decimal(ws_col as int) + " ws_row="@ + decimal(ws_row as int)
                + " (zero rejected, no (80, 24) fallback)"@,
        },
{
    match o {
        SizeOutcome::Success { .. } => None,
        SizeOutcome::NotATty => Some(
            CallError {
                code: err::TERMINAL_SIZE_NOT_A_TTY,
                message: String::from_str("TerminalSizeNotATty: stdout is not a TTY"),
            },
        ),
        SizeOutcome::IoctlFailed(e) => {
            let mut m = String::new();
            push_str(&mut m, "TerminalSizeIoctl: ioctl(TIOCGWINSZ) failed (errno ");
            push_decimal(&mut m, e as i64);
            push_str(&mut m, ")");
            Some(CallError { code: err::TERMINAL_SIZE_IOCTL, message: m })
        },
        SizeOutcome::DegenerateZero { ws_col, ws_row } => {
            let mut m = String::new();
            push_str(&mut m, "TerminalSizeIoctl: kernel returned ws_col=");
            push_decimal(&mut m, ws_col as i64);
            push_str(&mut m, " ws_row=");
            push_decimal(&mut m, ws_row as i64);
            push_str(&mut m, " (zero rejected, no (80, 24) fallback)");
            Some(CallError { code: err::TERMINAL_SIZE_IOCTL, message: m })
        },
    }
}

/// The size of a console window given by its inclusive edges, or `None`
/// when a dimension is below 1.
pub fn window_size(left: i16, top: i16, right: i16, bottom: i16) -> (r: Option<(i64, i64)>)
    requires
        -32768 <= right - left,
        right - left + 1 <= 32767,
        -32768 <= bottom - top,
        bottom - top + 1 <= 32767,
    ensures
        r == (if right - left + 1 < 1 || bottom - top + 1 < 1 {
            None
        } else {
            Some(((right - left + 1) as i64, (bottom - top + 1) as i64))
        }),
{
    let cols = (right - left + 1) as i64;
    let rows = (bottom - top + 1) as i64;
    if cols < 1 || rows < 1 {
        return None;
    }
    Some((cols, rows))
}

} // verus!
