//! The decisions behind reading one event: how many bytes to gather,
//! which bytes wait for the next read, what a poll result means, and
//! which error a failed read reports. The reads themselves are done by
//! the caller, which feeds their results in.

use vstd::prelude::*;
use std::collections::VecDeque;

use crate::event::{
    decode_one_event, event_spec, frame_len, is_final_byte, DecodedEvent, DecodedResize,
};
use crate::event::err;
use crate::key::{continuation_count, utf8_continuation_count};
use crate::error::CallError;
use crate::text::{decimal, push_decimal, push_str};

verus! {

/// Most bytes gathered for one event.
pub const MAX_EVENT_BYTES: usize = 64;

/// What reading one event came to.
#[derive(Debug)]
pub enum EventReadOutcome {
    Event(DecodedEvent),
    Eof,
    Interrupted,
    Io(i32),
    ResizeInitFailed,
}

// ── Pending bytes ────────────────────────────────────────────────

/// Bytes read from stdin but not yet consumed by an event, oldest first.
/// A read takes them before reading anything new.
pub struct PendingBytes {
    queue: VecDeque<u8>,
}

impl View for PendingBytes {
    type V = Seq<u8>;

    closed spec fn view(&self) -> Seq<u8> {
        self.queue@
    }
}

impl PendingBytes {
    /// An empty queue.
    pub fn new() -> (p: Self)
        ensures
            p@ == Seq::<u8>::empty(),
    {
        PendingBytes { queue: VecDeque::new() }
    }

    /// Number of waiting bytes.
    pub fn len(&self) -> (n: usize)
        ensures
            n == self@.len(),
    {
        self.queue.len()
    }

    /// Takes up to `max` bytes off the front.
    fn take_front(&mut self, max: usize) -> (v: Vec<u8>)
        ensures
            v@ == old(self)@.take(if old(self)@.len() < max { old(self)@.len() as int } else { max as int }),
            final(self)@ == old(self)@.skip(v@.len() as int),
    {
        let mut v: Vec<u8> = Vec::new();
        let ghost q0 = self@;
        while v.len() < max && self.queue.len() > 0
            invariant
                v@.len() <= max,
                v@.len() <= q0.len(),
                v@ == q0.take(v@.len() as int),
                self@ == q0.skip(v@.len() as int),
            decreases q0.len() - v@.len(),
        {
            match self.queue.pop_front() {
                Some(b) => {
                    proof {
                        assert(q0.take(v@.len() as int + 1) =~= v@.push(b));
                        assert(q0.skip(v@.len() as int + 1) =~= self@);
                    }
                    v.push(b);
                },
                None => {},
            }
        }
        v
    }

    /// Puts `bytes` back in front of what is waiting, in their order.
    fn push_back_front(&mut self, bytes: &[u8], from: usize)
        requires
            from <= bytes@.len(),
        ensures
            final(self)@ == bytes@.skip(from as int) + old(self)@,
    {
        let mut i = bytes.len();
        while i > from
            invariant
                from <= i <= bytes@.len(),
                self@ == bytes@.subrange(i as int, bytes@.len() as int) + old(self)@,
            decreases i,
        {
            i = i - 1;
            let ghost before = self@;
            self.queue.push_front(bytes[i]);
            proof {
                assert(self@ =~= bytes@.subrange(i as int, bytes@.len() as int) + old(self)@);
            }
        }
        proof {
            assert(bytes@.subrange(from as int, bytes@.len() as int) =~= bytes@.skip(from as int));
        }
    }
}

// ── Framing one event ────────────────────────────────────────────

/// Whether more bytes belong to the event gathered so far: after a lone
/// ESC one more byte may follow; `ESC [` runs to its final byte (the
/// buffer permitting); `ESC O` takes one more byte; a UTF-8 leading byte
/// read on its own takes its continuation bytes (`utf8_target` is the
/// full length then, else 0).
pub open spec fn wants_more(buf: Seq<u8>, utf8_target: int) -> bool {
    if buf.len() == 0 {
        false
    } else if buf[0] == 0x1B {
        if buf.len() == 1 {
            true
        } else if buf[1] == 0x5B {
            buf.len() < MAX_EVENT_BYTES && !(buf.len() >= 3 && is_final_byte(buf.last()))
        } else if buf[1] == 0x4F {
            buf.len() == 2
        } else {
            false
        }
    } else {
        buf.len() < utf8_target
    }
}

/// Full length of a UTF-8 character whose leading byte was read alone
/// (0 when `buf` is not exactly one byte of 0x80 or above).
pub open spec fn utf8_target_of(buf: Seq<u8>) -> int {
    if buf.len() == 1 && buf[0] >= 0x80 {
        if 1 + continuation_count(buf[0]) < MAX_EVENT_BYTES {
            1 + continuation_count(buf[0])
        } else {
            MAX_EVENT_BYTES as int
        }
    } else {
        0
    }
}

/// The next thing the reader must do.
#[derive(Debug, Clone, Copy, PartialEq, Eq, Structural)]
pub enum FrameStep {
    /// Wait for the first byte.
    ReadBlocking,
    /// Wait briefly for one more byte.
    PollByte,
    /// The event is complete: decode it.
    Decode,
}

/// The bytes of one event as they are gathered.
pub struct EventFramer {
    buf: Vec<u8>,
    utf8_target: usize,
    timed_out: bool,
}

/// Mathematical view of an [`EventFramer`].
pub struct FramerView {
    pub buf: Seq<u8>,
    pub utf8_target: int,
    pub timed_out: bool,
}

impl View for EventFramer {
    type V = FramerView;

    closed spec fn view(&self) -> FramerView {
        FramerView { buf: self.buf@, utf8_target: self.utf8_target as int, timed_out: self.timed_out }
    }
}

/// The step a framer in state `f` asks for.
pub open spec fn step_of(f: FramerView) -> FrameStep {
    if f.buf.len() == 0 {
        FrameStep::ReadBlocking
    } else if !f.timed_out && wants_more(f.buf, f.utf8_target) {
        FrameStep::PollByte
    } else {
        FrameStep::Decode
    }
}

impl FramerView {
    /// At most [`MAX_EVENT_BYTES`] bytes, and the UTF-8 target fixed from
    /// the first byte.
    pub open spec fn wf(self) -> bool {
        &&& self.buf.len() <= MAX_EVENT_BYTES
        &&& 0 <= self.utf8_target <= MAX_EVENT_BYTES
        &&& self.buf.len() > 0 && self.utf8_target > 0 ==> self.buf[0] >= 0x80 && self.buf[0] != 0x1B
    }
}

impl EventFramer {
    /// Starts reading an event with the waiting bytes: up to
    /// [`MAX_EVENT_BYTES`] of them leave the queue, oldest first.
    pub fn start(pending: &mut PendingBytes) -> (f: EventFramer)
        ensures
            f@.wf(),
            f@.buf == old(pending)@.take(f@.buf.len() as int),
            f@.buf.len() == (if old(pending)@.len() < MAX_EVENT_BYTES {
                old(pending)@.len() as int
            } else {
                MAX_EVENT_BYTES as int
            }),
            final(pending)@ == old(pending)@.skip(f@.buf.len() as int),
            f@.utf8_target == utf8_target_of(f@.buf),
            !f@.timed_out,
    {
        let buf = pending.take_front(MAX_EVENT_BYTES);
        let t = Self::target_for(&buf);
        EventFramer { buf, utf8_target: t, timed_out: false }
    }

    fn target_for(buf: &Vec<u8>) -> (t: usize)
        ensures
            t == utf8_target_of(buf@),
    {
        if buf.len() == 1 && buf[0] >= 0x80 {
            let expect = utf8_continuation_count(buf[0]);
            if 1 + expect < MAX_EVENT_BYTES {
                1 + expect
            } else {
                MAX_EVENT_BYTES
            }
        } else {
            0
        }
    }

    /// The next step.
    pub fn step(&self) -> (s: FrameStep)
        requires
            self@.wf(),
        ensures
            s == step_of(self@),
    {
        if self.buf.len() == 0 {
            return FrameStep::ReadBlocking;
        }
        if self.timed_out {
            return FrameStep::Decode;
        }
        let n = self.buf.len();
        let more = if self.buf[0] == 0x1B {
            if n == 1 {
                true
            } else if self.buf[1] == 0x5B {
                let last = self.buf[n - 1];
                n < MAX_EVENT_BYTES && !(n >= 3 && 0x40 <= last && last <= 0x7E)
            } else if self.buf[1] == 0x4F {
                n == 2
            } else {
                false
            }
        } else {
            n < self.utf8_target
        };
        if more {
            FrameStep::PollByte
        } else {
            FrameStep::Decode
        }
    }

    /// Records the first byte, read blocking.
    pub fn first_byte(&mut self, b: u8)
        requires
            old(self)@.wf(),
            step_of(old(self)@) == FrameStep::ReadBlocking,
        ensures
            final(self)@.wf(),
            final(self)@.buf == seq![b],
            final(self)@.utf8_target == utf8_target_of(seq![b]),
            final(self)@.timed_out == old(self)@.timed_out,
    {
        self.buf.push(b);
        proof {
            assert(self.buf@ =~= seq![b]);
        }
        self.utf8_target = Self::target_for(&self.buf);
    }

    /// Records the result of a brief wait for one more byte: a byte is
    /// appended; nothing ends the gathering.
    pub fn offer(&mut self, b: Option<u8>)
        requires
            old(self)@.wf(),
            step_of(old(self)@) == FrameStep::PollByte,
        ensures
            final(self)@.wf(),
            final(self)@.utf8_target == old(self)@.utf8_target,
            match b {
                Some(x) => final(self)@.buf == old(self)@.buf.push(x) && !final(self)@.timed_out,
                None => final(self)@.buf == old(self)@.buf && final(self)@.timed_out,
            },
    {
        match b {
            Some(x) => self.buf.push(x),
            None => self.timed_out = true,
        }
    }

    /// Decodes the first event of the gathered bytes; the bytes it did not
    /// take go back in front of the queue, in order.
    pub fn finish(&self, pending: &mut PendingBytes) -> (e: DecodedEvent)
        requires
            self@.wf(),
            self@.buf.len() > 0,
        ensures
            e@ == event_spec(self@.buf),
            final(pending)@ == self@.buf.skip(frame_len(self@.buf)) + old(pending)@,
            1 <= frame_len(self@.buf) <= self@.buf.len(),
    {
        let (consumed, event) = decode_one_event(self.buf.as_slice());
        pending.push_back_front(self.buf.as_slice(), consumed);
        event
    }
}

/// A framer asks for another byte only while it holds fewer than
/// [`MAX_EVENT_BYTES`], so one event never gathers more than that.
pub proof fn law_framing_is_bounded(f: FramerView)
    requires
        f.wf(),
        step_of(f) == FrameStep::PollByte,
    ensures
        f.buf.len() < MAX_EVENT_BYTES,
{
}

/// The bytes an event did not take are the first ones the next read
/// gathers: after `finish`, the next `start` begins with them.
pub proof fn law_surplus_read_first(buf: Seq<u8>, waiting: Seq<u8>)
    requires
        1 <= frame_len(buf) <= buf.len() <= MAX_EVENT_BYTES,
    ensures
        ({
            let rest = buf.skip(frame_len(buf));
            let q = rest + waiting;
            let n = if q.len() < MAX_EVENT_BYTES { q.len() as int } else { MAX_EVENT_BYTES as int };
            q.take(n).take(rest.len() as int) == rest
        }),
{
    let rest = buf.skip(frame_len(buf));
    let q = rest + waiting;
    let n = if q.len() < MAX_EVENT_BYTES { q.len() as int } else { MAX_EVENT_BYTES as int };
    assert(q.take(n).take(rest.len() as int) =~= rest);
}

/// One read keeps every byte: the queue's bytes and the bytes read from
/// stdin come out, in order, as the event's bytes followed by the queue
/// left for later reads. (Stdin is read only when the queue did not
/// fill the framer.)
pub proof fn law_read_keeps_every_byte(q: Seq<u8>, polled: Seq<u8>)
    requires
        polled.len() > 0 ==> q.len() < MAX_EVENT_BYTES,
        ({
            let n = if q.len() < MAX_EVENT_BYTES { q.len() as int } else { MAX_EVENT_BYTES as int };
            let buf = q.take(n) + polled;
            1 <= frame_len(buf) <= buf.len()
        }),
    ensures
        ({
            let n = if q.len() < MAX_EVENT_BYTES { q.len() as int } else { MAX_EVENT_BYTES as int };
            let buf = q.take(n) + polled;
            buf.take(frame_len(buf)) + (buf.skip(frame_len(buf)) + q.skip(n)) == q + polled
        }),
{
    let n = if q.len() < MAX_EVENT_BYTES { q.len() as int } else { MAX_EVENT_BYTES as int };
    let buf = q.take(n) + polled;
    let f = frame_len(buf);
    assert(buf.take(f) + buf.skip(f) =~= buf);
    if polled.len() > 0 {
        assert(q.take(n) =~= q);
        assert(q.skip(n) =~= Seq::<u8>::empty());
    } else {
        assert(q.take(n) + q.skip(n) =~= q);
    }
    assert(buf.take(f) + (buf.skip(f) + q.skip(n)) =~= q + polled);
}

// ── Polling ──────────────────────────────────────────────────────

/// What to do after waiting on stdin and the resize pipe.
#[derive(Debug)]
pub enum PollStep {
    /// The read is over with this outcome.
    Finished(EventReadOutcome),
    /// Read an event from stdin.
    ReadStdin,
}

/// Decides what a finished wait on stdin and the resize pipe means. A
/// resize that arrived wins, then stdin; a wait interrupted by a signal
/// reports an interruption unless a resize arrived; any other failure
/// reports its errno. `resize` is the size read after draining a ready
/// pipe (absent when the pipe was not ready or the size was unreadable).
pub fn poll_step(failed: bool, interrupted: bool, errno: i32, resize: Option<DecodedResize>, stdin_ready: bool) -> (s:
    PollStep)
    ensures
        failed && interrupted && resize is Some ==> (s matches PollStep::Finished(
            EventReadOutcome::Event(DecodedEvent::Resize(r)),
        ) && resize == Some(r)),
        failed && interrupted && resize is None ==> (s matches PollStep::Finished(
            EventReadOutcome::Interrupted,
        )),
        failed && !interrupted ==> (s matches PollStep::Finished(EventReadOutcome::Io(e)) && e
            == errno),
        !failed && resize is Some ==> (s matches PollStep::Finished(
            EventReadOutcome::Event(DecodedEvent::Resize(r)),
        ) && resize == Some(r)),
        !failed && resize is None && stdin_ready ==> (s matches PollStep::ReadStdin),
        !failed && resize is None && !stdin_ready ==> (s matches PollStep::Finished(
            EventReadOutcome::Interrupted,
        )),
{
    if failed {
        if interrupted {
            return match resize {
                Some(r) => PollStep::Finished(EventReadOutcome::Event(DecodedEvent::Resize(r))),
                None => PollStep::Finished(EventReadOutcome::Interrupted),
            };
        }
        return PollStep::Finished(EventReadOutcome::Io(errno));
    }
    match resize {
        Some(r) => PollStep::Finished(EventReadOutcome::Event(DecodedEvent::Resize(r))),
        None => if stdin_ready {
            PollStep::ReadStdin
        } else {
            PollStep::Finished(EventReadOutcome::Interrupted)
        },
    }
}

/// The size reported after a resize: the ioctl must succeed and both
/// dimensions be non-zero.
pub fn resize_from_winsize(ok: bool, ws_col: u16, ws_row: u16) -> (r: Option<DecodedResize>)
    ensures
        r == (if !ok || ws_col == 0 || ws_row == 0 {
            None
        } else {
            Some(DecodedResize { cols: ws_col as i64, rows: ws_row as i64 })
        }),
{
    if !ok || ws_col == 0 || ws_row == 0 {
        return None;
    }
    Some(DecodedResize { cols: ws_col as i64, rows: ws_row as i64 })
}

// ── Errors ───────────────────────────────────────────────────────

/// The check made before reading: stdin must be a TTY, then raw mode
/// must be active.
pub fn read_event_precheck(is_tty: bool, raw_active: bool) -> (r: Option<CallError>)
    ensures
        !is_tty ==> (r matches Some(f) && f.code == err::READ_EVENT_NOT_A_TTY && f.message@
            == "ReadEventNotATty: stdin is not a TTY"@),
        is_tty && !raw_active ==> (r matches Some(f) && f.code == err::READ_EVENT_NOT_IN_RAW_MODE
            && f.message@ == "ReadEventNotInRawMode: raw mode must be active (call RawModeEnter first)"@),
        is_tty && raw_active ==> r is None,
{
    if !is_tty {
        return Some(
            CallError {
                code: err::READ_EVENT_NOT_A_TTY,
                message: String::from_str("ReadEventNotATty: stdin is not a TTY"),
            },
        );
    }
    if !raw_active {
        return Some(
            CallError {
                code: err::READ_EVENT_NOT_IN_RAW_MODE,
                message: String::from_str(
                    "ReadEventNotInRawMode: raw mode must be active (call RawModeEnter first)",
                ),
            },
        );
    }
    None
}

/// The error a read outcome reports; `None` for an event.
pub fn event_outcome_error(o: &EventReadOutcome) -> (r: Option<CallError>)
    ensures
        match o {
            EventReadOutcome::Event(_) => r is None,
            EventReadOutcome::Eof => r matches Some(f) && f.code == err::READ_EVENT_EOF
                && f.message@ == "ReadEventEof: stdin closed"@,
            EventReadOutcome::Interrupted => r matches Some(f) && f.code
                == err::READ_EVENT_INTERRUPTED && f.message@
                == "ReadEventInterrupted: read interrupted by signal"@,
            EventReadOutcome::Io(e) => r matches Some(f) && f.code == err::READ_EVENT_READ_FAILED
                && f.message@ == "ReadEventReadFailed: read(2) failed (errno "@ + decimal(*e as int)
                + ")"@,
            EventReadOutcome::ResizeInitFailed => r matches Some(f) && f.code
                == err::READ_EVENT_RESIZE_INIT_FAILED && f.message@
                == "ReadEventResizeInitFailed: SIGWINCH pipe/handler initialization failed"@,
        },
{
    match o {
        EventReadOutcome::Event(_) => None,
        EventReadOutcome::Eof => Some(
            CallError {
                code: err::READ_EVENT_EOF,
                message: String::from_str("ReadEventEof: stdin closed"),
            },
        ),
        EventReadOutcome::Interrupted => Some(
            CallError {
                code: err::READ_EVENT_INTERRUPTED,
                message: String::from_str("ReadEventInterrupted: read interrupted by signal"),
            },
        ),
        EventReadOutcome::Io(e) => {
            let mut m = String::new();
            push_str(&mut m, "ReadEventReadFailed: read(2) failed (errno ");
            push_decimal(&mut m, *e as i64);
            push_str(&mut m, ")");
            Some(CallError { code: err::READ_EVENT_READ_FAILED, message: m })
        },
        EventReadOutcome::ResizeInitFailed => Some(
            CallError {
                code: err::READ_EVENT_RESIZE_INIT_FAILED,
                message: String::from_str(
                    "ReadEventResizeInitFailed: SIGWINCH pipe/handler initialization failed",
                ),
            },
        ),
    }
}

} // verus!
