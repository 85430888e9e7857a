//! The addon's function table: the host-visible names of its entries, in
//! their fixed order, with the number of arguments each takes, and the
//! checks every entry makes before it does any work.

use vstd::prelude::*;

verus! {

/// The name under which the host loads the addon.
pub const ADDON_NAME: &'static str = "taida-lang/terminal";

/// Number of entries in the function table.
pub const FUNCTION_COUNT: usize = 16;

/// One entry of the function table. The order of the variants is the
/// order of the table, which only ever grows at its end.
#[derive(Debug, Clone, Copy, PartialEq, Eq, Structural)]
pub enum Entry {
    TerminalSize,
    ReadKey,
    IsTerminal,
    RawModeEnter,
    RawModeLeave,
    ReadEvent,
    Write,
    BufferPut,
    BufferWrite,
    BufferFillRect,
    BufferClear,
    BufferDiff,
    RenderFull,
    RenderFrame,
    RenderOps,
    BufferBlit,
}

/// The table, in order.
pub open spec fn table_order() -> Seq<Entry> {
    seq![
        Entry::TerminalSize,
        Entry::ReadKey,
        Entry::IsTerminal,
        Entry::RawModeEnter,
        Entry::RawModeLeave,
        Entry::ReadEvent,
        Entry::Write,
        Entry::BufferPut,
        Entry::BufferWrite,
        Entry::BufferFillRect,
        Entry::BufferClear,
        Entry::BufferDiff,
        Entry::RenderFull,
        Entry::RenderFrame,
        Entry::RenderOps,
        Entry::BufferBlit,
    ]
}

/// The host-visible name of an entry.
pub open spec fn name_of(e: Entry) -> Seq<char> {
    match e {
        Entry::TerminalSize => "terminalSize"@,
        Entry::ReadKey => "readKey"@,
        Entry::IsTerminal => "isTerminal"@,
        Entry::RawModeEnter => "rawModeEnter"@,
        Entry::RawModeLeave => "rawModeLeave"@,
        Entry::ReadEvent => "readEvent"@,
        Entry::Write => "write"@,
        Entry::BufferPut => "bufferPut"@,
        Entry::BufferWrite => "bufferWrite"@,
        Entry::BufferFillRect => "bufferFillRect"@,
        Entry::BufferClear => "bufferClear"@,
        Entry::BufferDiff => "bufferDiff"@,
        Entry::RenderFull => "renderFull"@,
        Entry::RenderFrame => "renderFrame"@,
        Entry::RenderOps => "renderOps"@,
        Entry::BufferBlit => "bufferBlit"@,
    }
}

/// The number of arguments an entry takes.
pub open spec fn arity_of(e: Entry) -> u32 {
    match e {
        Entry::TerminalSize => 0,
        Entry::ReadKey => 0,
        Entry::IsTerminal => 1,
        Entry::RawModeEnter => 0,
        Entry::RawModeLeave => 0,
        Entry::ReadEvent => 0,
        Entry::Write => 1,
        Entry::BufferPut => 4,
        Entry::BufferWrite => 5,
        Entry::BufferFillRect => 6,
        Entry::BufferClear => 2,
        Entry::BufferDiff => 2,
        Entry::RenderFull => 1,
        Entry::RenderFrame => 2,
        Entry::RenderOps => 1,
        Entry::BufferBlit => 4,
    }
}

/// The function table, in order.
pub fn function_table() -> (t: Vec<Entry>)
    ensures
        t@ == table_order(),
        t@.len() == FUNCTION_COUNT,
{
    let t = vec![
        Entry::TerminalSize,
        Entry::ReadKey,
        Entry::IsTerminal,
        Entry::RawModeEnter,
        Entry::RawModeLeave,
        Entry::ReadEvent,
        Entry::Write,
        Entry::BufferPut,
        Entry::BufferWrite,
        Entry::BufferFillRect,
        Entry::BufferClear,
        Entry::BufferDiff,
        Entry::RenderFull,
        Entry::RenderFrame,
        Entry::RenderOps,
        Entry::BufferBlit,
    ];
    assert(t@ =~= table_order());
    t
}

/// The host-visible name of an entry.
pub fn entry_name(e: Entry) -> (s: &'static str)
    ensures
        s@ == name_of(e),
{
    match e {
        Entry::TerminalSize => "terminalSize",
        Entry::ReadKey => "readKey",
        Entry::IsTerminal => "isTerminal",
        Entry::RawModeEnter => "rawModeEnter",
        Entry::RawModeLeave => "rawModeLeave",
        Entry::ReadEvent => "readEvent",
        Entry::Write => "write",
        Entry::BufferPut => "bufferPut",
        Entry::BufferWrite => "bufferWrite",
        Entry::BufferFillRect => "bufferFillRect",
        Entry::BufferClear => "bufferClear",
        Entry::BufferDiff => "bufferDiff",
        Entry::RenderFull => "renderFull",
        Entry::RenderFrame => "renderFrame",
        Entry::RenderOps => "renderOps",
        Entry::BufferBlit => "bufferBlit",
    }
}

/// The number of arguments an entry takes.
pub fn entry_arity(e: Entry) -> (n: u32)
    ensures
        n == arity_of(e),
{
    match e {
        Entry::TerminalSize => 0,
        Entry::ReadKey => 0,
        Entry::IsTerminal => 1,
        Entry::RawModeEnter => 0,
        Entry::RawModeLeave => 0,
        Entry::ReadEvent => 0,
        Entry::Write => 1,
        Entry::BufferPut => 4,
        Entry::BufferWrite => 5,
        Entry::BufferFillRect => 6,
        Entry::BufferClear => 2,
        Entry::BufferDiff => 2,
        Entry::RenderFull => 1,
        Entry::RenderFrame => 2,
        Entry::RenderOps => 1,
        Entry::BufferBlit => 4,
    }
}

/// What an entry's checks decided before any work.
#[derive(Debug, Clone, Copy, PartialEq, Eq, Structural)]
pub enum EntryStatus {
    /// The call may go on.
    Proceed,
    /// The call passed a wrong number of arguments.
    ArityMismatch,
    /// The host callback table has not been captured yet.
    InvalidState,
}

/// The checks every entry makes, in order: the argument count against
/// the entry's `arity` first (before the host is even looked at), then
/// whether the host table has been captured.
pub fn call_precheck(arity: u32, args_len: u32, host_ready: bool) -> (s: EntryStatus)
    ensures
        s == (if args_len != arity {
            EntryStatus::ArityMismatch
        } else if !host_ready {
            EntryStatus::InvalidState
        } else {
            EntryStatus::Proceed
        }),
{
    if args_len != arity {
        EntryStatus::ArityMismatch
    } else if !host_ready {
        EntryStatus::InvalidState
    } else {
        EntryStatus::Proceed
    }
}

/// [`call_precheck`] for an entry of the function table.
pub fn entry_precheck(e: Entry, args_len: u32, host_ready: bool) -> (s: EntryStatus)
    ensures
        s == (if args_len != arity_of(e) {
            EntryStatus::ArityMismatch
        } else if !host_ready {
            EntryStatus::InvalidState
        } else {
            EntryStatus::Proceed
        }),
{
    call_precheck(entry_arity(e), args_len, host_ready)
}

} // verus!
