//! The decisions behind reading one key: gathering exactly one key's
//! bytes (so held-down keys never run together), serialising readers,
//! and the error each failure reports. The reads are the caller's.

use vstd::prelude::*;

use crate::key::{continuation_count, decode, decode_spec, utf8_continuation_count, DecodedKey};
use crate::error::CallError;
use crate::key::err;
use crate::text::{decimal, push_decimal, push_str};

verus! {

/// Most bytes kept for one key.
pub const MAX_KEY_BYTES: usize = 16;

/// Most bytes discarded after an oversized escape sequence.
pub const MAX_DRAIN: usize = 64;

/// A CSI final byte.
pub open spec fn is_final(b: u8) -> bool {
    0x40 <= b <= 0x7E
}

/// What gathering a key is waiting for.
#[derive(Debug, Clone, Copy, PartialEq, Eq, Structural)]
pub enum KeyPhase {
    /// ESC was read: one more byte tells a lone ESC from a sequence.
    AfterEsc,
    /// ESC ESC was read: an Alt-prefixed sequence may follow.
    AfterEscEsc,
    /// Inside `ESC [`: up to the final byte.
    Csi,
    /// A legacy X10 mouse report: three payload bytes follow `ESC [ M`.
    X10,
    /// The buffer filled before the final byte: discard up to it.
    Drain,
    /// `ESC O`: one more byte.
    Ss3,
    /// The continuation bytes of a UTF-8 character.
    Utf8,
    /// The key is complete.
    Done,
}

/// The bytes of one key as they are gathered.
pub struct KeyFramer {
    buf: Vec<u8>,
    phase: KeyPhase,
    seq: usize,
    target: usize,
    drained: usize,
}

/// Mathematical view of a [`KeyFramer`].
pub struct KeyFramerView {
    pub buf: Seq<u8>,
    pub phase: KeyPhase,
    /// Index of the byte after the ESC prefix (1, or 2 after ESC ESC).
    pub seq: int,
    /// Length to reach in the `X10` and `Utf8` phases.
    pub target: int,
    /// Bytes discarded in the `Drain` phase.
    pub drained: int,
}

impl View for KeyFramer {
    type V = KeyFramerView;

    closed spec fn view(&self) -> KeyFramerView {
        KeyFramerView {
            buf: self.buf@,
            phase: self.phase,
            seq: self.seq as int,
            target: self.target as int,
            drained: self.drained as int,
        }
    }
}

/// The smaller of two integers.
pub open spec fn min_of(a: int, b: int) -> int {
    if a < b {
        a
    } else {
        b
    }
}

/// Inside `ESC [`, another byte is wanted: the buffer has room and no
/// final byte has arrived past the introducer.
pub open spec fn csi_wants(buf: Seq<u8>, seq: int) -> bool {
    buf.len() < MAX_KEY_BYTES && !(buf.len() >= seq + 2 && is_final(buf.last()))
}

/// After a full buffer without a final byte, the rest is drained.
pub open spec fn oversized(buf: Seq<u8>) -> KeyPhase {
    if buf.len() == MAX_KEY_BYTES && !is_final(buf[MAX_KEY_BYTES - 1]) {
        KeyPhase::Drain
    } else {
        KeyPhase::Done
    }
}

/// Where a CSI sequence goes once its bytes stop: a bare `ESC [ M` is
/// an X10 mouse report with three payload bytes to come; else the
/// oversized check.
pub open spec fn after_csi(buf: Seq<u8>, seq: int) -> (KeyPhase, int) {
    if buf.len() == seq + 2 && buf[seq + 1] == 0x4D {
        let t = min_of(buf.len() as int + 3, MAX_KEY_BYTES as int);
        if buf.len() < t {
            (KeyPhase::X10, t)
        } else {
            (oversized(buf), 0)
        }
    } else {
        (oversized(buf), 0)
    }
}

/// The phase after the ESC prefix ends at `seq`: `[` starts a CSI
/// sequence, `O` an SS3 sequence; a UTF-8 leading byte right after a
/// single ESC takes its continuation bytes; anything else is complete.
pub open spec fn enter_seq(buf: Seq<u8>, seq: int) -> (KeyPhase, int) {
    if buf.len() > seq && buf[seq] == 0x5B {
        if csi_wants(buf, seq) {
            (KeyPhase::Csi, 0)
        } else {
            after_csi(buf, seq)
        }
    } else if buf.len() > seq && buf[seq] == 0x4F {
        if buf.len() == seq + 1 {
            (KeyPhase::Ss3, 0)
        } else {
            (KeyPhase::Done, 0)
        }
    } else if seq == 1 && buf.len() >= 2 && buf[1] >= 0x80 {
        let t = min_of(2 + continuation_count(buf[1]), MAX_KEY_BYTES as int);
        if buf.len() < t {
            (KeyPhase::Utf8, t)
        } else {
            (KeyPhase::Done, 0)
        }
    } else {
        (KeyPhase::Done, 0)
    }
}

/// `buf` with `b` appended when there is one.
pub open spec fn push_opt(buf: Seq<u8>, b: Option<u8>) -> Seq<u8> {
    match b {
        Some(x) => buf.push(x),
        None => buf,
    }
}

/// The framer state after a first byte.
pub open spec fn begin_spec(first: u8) -> KeyFramerView {
    let buf = seq![first];
    if first == 0x1B {
        KeyFramerView { buf, phase: KeyPhase::AfterEsc, seq: 1, target: 0, drained: 0 }
    } else if first >= 0x80 {
        let t = min_of(1 + continuation_count(first), MAX_KEY_BYTES as int);
        if 1 < t {
            KeyFramerView { buf, phase: KeyPhase::Utf8, seq: 1, target: t, drained: 0 }
        } else {
            KeyFramerView { buf, phase: KeyPhase::Done, seq: 1, target: 0, drained: 0 }
        }
    } else {
        KeyFramerView { buf, phase: KeyPhase::Done, seq: 1, target: 0, drained: 0 }
    }
}

/// The framer state after waiting for one more byte (`None`: nothing
/// arrived in time).
pub open spec fn feed_spec(f: KeyFramerView, b: Option<u8>) -> KeyFramerView {
    match f.phase {
        KeyPhase::AfterEsc => {
            let buf = push_opt(f.buf, b);
            if buf.len() == 2 && buf[1] == 0x1B {
                KeyFramerView { buf, phase: KeyPhase::AfterEscEsc, seq: 2, target: 0, drained: 0 }
            } else {
                let (p, t) = enter_seq(buf, 1);
                KeyFramerView { buf, phase: p, seq: 1, target: t, drained: 0 }
            }
        },
        KeyPhase::AfterEscEsc => {
            let buf = push_opt(f.buf, b);
            let (p, t) = enter_seq(buf, 2);
            KeyFramerView { buf, phase: p, seq: 2, target: t, drained: 0 }
        },
        KeyPhase::Csi => {
            let buf = push_opt(f.buf, b);
            if b is Some && csi_wants(buf, f.seq) {
                KeyFramerView { buf, ..f }
            } else {
                let (p, t) = after_csi(buf, f.seq);
                KeyFramerView { buf, phase: p, seq: f.seq, target: t, drained: 0 }
            }
        },
        KeyPhase::X10 => {
            let buf = push_opt(f.buf, b);
            if b is Some && buf.len() < f.target {
                KeyFramerView { buf, ..f }
            } else {
                KeyFramerView { buf, phase: oversized(buf), ..f }
            }
        },
        KeyPhase::Drain => match b {
            Some(x) => if is_final(x) || f.drained + 1 >= MAX_DRAIN {
                KeyFramerView { phase: KeyPhase::Done, drained: if is_final(x) {
                    f.drained
                } else {
                    f.drained + 1
                }, ..f }
            } else {
                KeyFramerView { drained: f.drained + 1, ..f }
            },
            None => KeyFramerView { phase: KeyPhase::Done, ..f },
        },
        KeyPhase::Ss3 => KeyFramerView { buf: push_opt(f.buf, b), phase: KeyPhase::Done, ..f },
        KeyPhase::Utf8 => {
            let buf = push_opt(f.buf, b);
            if b is Some && buf.len() < f.target {
                KeyFramerView { buf, ..f }
            } else {
                KeyFramerView { buf, phase: KeyPhase::Done, ..f }
            }
        },
        KeyPhase::Done => f,
    }
}

impl KeyFramerView {
    /// Between 1 and [`MAX_KEY_BYTES`] bytes; each waiting phase still
    /// has room for the byte it waits for.
    pub open spec fn wf(self) -> bool {
        &&& 1 <= self.buf.len() <= MAX_KEY_BYTES
        &&& 0 <= self.drained <= MAX_DRAIN
        &&& (self.phase != KeyPhase::Drain && self.phase != KeyPhase::Done) ==> self.drained == 0
        &&& (self.seq == 1 || self.seq == 2)
        &&& self.phase == KeyPhase::AfterEsc ==> self.buf =~= seq![0x1Bu8]
        &&& self.phase == KeyPhase::AfterEscEsc ==> self.buf =~= seq![0x1Bu8, 0x1Bu8]
        &&& self.phase == KeyPhase::Csi ==> csi_wants(self.buf, self.seq)
        &&& (self.phase == KeyPhase::X10 || self.phase == KeyPhase::Utf8) ==> self.buf.len()
            < self.target <= MAX_KEY_BYTES
        &&& self.phase == KeyPhase::Drain ==> self.buf.len() == MAX_KEY_BYTES && self.drained
            < MAX_DRAIN
        &&& self.phase == KeyPhase::Ss3 ==> self.buf.len() < MAX_KEY_BYTES
    }

    /// Decreases with every byte waited for, so gathering ends.
    pub open spec fn measure(self) -> int {
        if self.phase == KeyPhase::Done {
            0
        } else {
            1 + (MAX_KEY_BYTES - self.buf.len()) * 100 + (MAX_DRAIN - self.drained)
        }
    }
}

impl KeyFramer {
    /// Starts with the first byte, read blocking.
    pub fn begin(first: u8) -> (f: KeyFramer)
        ensures
            f@ == begin_spec(first),
            f@.wf(),
    {
        let mut buf: Vec<u8> = Vec::new();
        buf.push(first);
        proof {
            assert(buf@ =~= seq![first]);
        }
        if first == 0x1B {
            KeyFramer { buf, phase: KeyPhase::AfterEsc, seq: 1, target: 0, drained: 0 }
        } else if first >= 0x80 {
            let expect = utf8_continuation_count(first);
            let t = if 1 + expect < MAX_KEY_BYTES {
                1 + expect
            } else {
                MAX_KEY_BYTES
            };
            if 1 < t {
                KeyFramer { buf, phase: KeyPhase::Utf8, seq: 1, target: t, drained: 0 }
            } else {
                KeyFramer { buf, phase: KeyPhase::Done, seq: 1, target: 0, drained: 0 }
            }
        } else {
            KeyFramer { buf, phase: KeyPhase::Done, seq: 1, target: 0, drained: 0 }
        }
    }

    /// Whether another byte should be waited for.
    pub fn wants_byte(&self) -> (b: bool)
        ensures
            b == (self@.phase != KeyPhase::Done),
    {
        match self.phase {
            KeyPhase::Done => false,
            _ => true,
        }
    }

    fn csi_wants_exec(buf: &Vec<u8>, seq: usize) -> (b: bool)
        requires
            buf@.len() >= 1,
            seq <= 2,
        ensures
            b == csi_wants(buf@, seq as int),
    {
        let n = buf.len();
        let last = buf[n - 1];
        n < MAX_KEY_BYTES && !(n >= seq + 2 && 0x40 <= last && last <= 0x7E)
    }

    fn oversized_exec(buf: &Vec<u8>) -> (p: KeyPhase)
        requires
            buf@.len() <= MAX_KEY_BYTES,
        ensures
            p == oversized(buf@),
    {
        if buf.len() == MAX_KEY_BYTES {
            let b = buf[MAX_KEY_BYTES - 1];
            if !(0x40 <= b && b <= 0x7E) {
                return KeyPhase::Drain;
            }
        }
        KeyPhase::Done
    }

    fn after_csi_exec(buf: &Vec<u8>, seq: usize) -> (r: (KeyPhase, usize))
        requires
            buf@.len() <= MAX_KEY_BYTES,
            seq <= 2,
        ensures
            r.0 == after_csi(buf@, seq as int).0,
            r.1 == after_csi(buf@, seq as int).1,
    {
        let n = buf.len();
        if n == seq + 2 && buf[seq + 1] == 0x4D {
            let t = if n + 3 < MAX_KEY_BYTES {
                n + 3
            } else {
                MAX_KEY_BYTES
            };
            if n < t {
                return (KeyPhase::X10, t);
            }
        }
        (Self::oversized_exec(buf), 0)
    }

    fn enter_seq_exec(buf: &Vec<u8>, seq: usize) -> (r: (KeyPhase, usize))
        requires
            1 <= buf@.len() <= MAX_KEY_BYTES,
            seq == 1 || seq == 2,
        ensures
            r.0 == enter_seq(buf@, seq as int).0,
            r.1 == enter_seq(buf@, seq as int).1,
    {
        let n = buf.len();
        if n > seq && buf[seq] == 0x5B {
            if Self::csi_wants_exec(buf, seq) {
                (KeyPhase::Csi, 0)
            } else {
                Self::after_csi_exec(buf, seq)
            }
        } else if n > seq && buf[seq] == 0x4F {
            if n == seq + 1 {
                (KeyPhase::Ss3, 0)
            } else {
                (KeyPhase::Done, 0)
            }
        } else if seq == 1 && n >= 2 && buf[1] >= 0x80 {
            let expect = utf8_continuation_count(buf[1]);
            let t = if 2 + expect < MAX_KEY_BYTES {
                2 + expect
            } else {
                MAX_KEY_BYTES
            };
            if n < t {
                (KeyPhase::Utf8, t)
            } else {
                (KeyPhase::Done, 0)
            }
        } else {
            (KeyPhase::Done, 0)
        }
    }

    /// Records the result of waiting briefly for one more byte.
    pub fn feed(&mut self, b: Option<u8>)
        requires
            old(self)@.wf(),
            old(self)@.phase != KeyPhase::Done,
        ensures
            final(self)@ == feed_spec(old(self)@, b),
            final(self)@.wf(),
            final(self)@.measure() < old(self)@.measure(),
    {
        match self.phase {
            KeyPhase::AfterEsc => {
                if let Some(x) = b {
                    self.buf.push(x);
                }
                self.drained = 0;
                if self.buf.len() == 2 && self.buf[1] == 0x1B {
                    self.phase = KeyPhase::AfterEscEsc;
                    self.seq = 2;
                    self.target = 0;
                } else {
                    let (p, t) = Self::enter_seq_exec(&self.buf, 1);
                    self.phase = p;
                    self.seq = 1;
                    self.target = t;
                }
            },
            KeyPhase::AfterEscEsc => {
                if let Some(x) = b {
                    self.buf.push(x);
                }
                let (p, t) = Self::enter_seq_exec(&self.buf, 2);
                self.phase = p;
                self.seq = 2;
                self.target = t;
                self.drained = 0;
            },
            KeyPhase::Csi => {
                match b {
                    Some(x) => {
                        self.buf.push(x);
                        if !Self::csi_wants_exec(&self.buf, self.seq) {
                            let (p, t) = Self::after_csi_exec(&self.buf, self.seq);
                            self.phase = p;
                            self.target = t;
                            self.drained = 0;
                        }
                    },
                    None => {
                        let (p, t) = Self::after_csi_exec(&self.buf, self.seq);
                        self.phase = p;
                        self.target = t;
                        self.drained = 0;
                    },
                }
            },
            KeyPhase::X10 => {
                match b {
                    Some(x) => {
                        self.buf.push(x);
                        if self.buf.len() >= self.target {
                            self.phase = Self::oversized_exec(&self.buf);
                        }
                    },
                    None => {
                        self.phase = Self::oversized_exec(&self.buf);
                    },
                }
            },
            KeyPhase::Drain => {
                match b {
                    Some(x) => {
                        if 0x40 <= x && x <= 0x7E {
                            self.phase = KeyPhase::Done;
                        } else {
                            self.drained = self.drained + 1;
                            if self.drained >= MAX_DRAIN {
                                self.phase = KeyPhase::Done;
                            }
                        }
                    },
                    None => {
                        self.phase = KeyPhase::Done;
                    },
                }
            },
            KeyPhase::Ss3 => {
                if let Some(x) = b {
                    self.buf.push(x);
                }
                self.phase = KeyPhase::Done;
            },
            KeyPhase::Utf8 => {
                match b {
                    Some(x) => {
                        self.buf.push(x);
                        if self.buf.len() >= self.target {
                            self.phase = KeyPhase::Done;
                        }
                    },
                    None => {
                        self.phase = KeyPhase::Done;
                    },
                }
            },
            KeyPhase::Done => {},
        }
    }

    /// The key the gathered bytes stand for.
    pub fn key(&self) -> (k: DecodedKey)
        ensures
            k@ == decode_spec(self@.buf),
    {
        decode(self.buf.as_slice())
    }
}

/// Gathering never keeps more than [`MAX_KEY_BYTES`] bytes, and a wait
/// that yields nothing ends it.
pub proof fn law_timeout_ends_key(f: KeyFramerView)
    requires
        f.wf(),
        f.phase != KeyPhase::Done,
    ensures
        feed_spec(f, None).phase == KeyPhase::Done,
        feed_spec(f, None).buf == f.buf,
        f.buf.len() <= MAX_KEY_BYTES,
{
}

/// Inside `ESC [`, the byte that ends the sequence ends the key (unless
/// it opens an X10 mouse report or follows an oversized sequence): no
/// byte of the next key is taken.
pub proof fn law_csi_stops_at_final(f: KeyFramerView, x: u8)
    requires
        f.wf(),
        f.phase == KeyPhase::Csi,
        is_final(x),
        f.buf.len() + 1 >= f.seq + 2,
        !(f.buf.len() + 1 == f.seq + 2 && x == 0x4D),
    ensures
        feed_spec(f, Some(x)).phase == KeyPhase::Done,
        feed_spec(f, Some(x)).buf == f.buf.push(x),
{
}

// ── Serialising readers ──────────────────────────────────────────

/// The single slot that lets one key read run at a time.
pub struct InflightSlot {
    busy: bool,
}

impl View for InflightSlot {
    type V = bool;

    closed spec fn view(&self) -> bool {
        self.busy
    }
}

/// Proof that the holder entered the slot; given back on release.
pub struct InflightGuard {
    entered: bool,
}

impl InflightSlot {
    /// A free slot.
    pub fn new() -> (s: Self)
        ensures
            !s@,
    {
        InflightSlot { busy: false }
    }
}

impl InflightGuard {
    /// Enters the slot, or `None` while another read holds it.
    pub fn try_enter(slot: &mut InflightSlot) -> (g: Option<InflightGuard>)
        ensures
            old(slot)@ ==> g is None && final(slot)@,
            !old(slot)@ ==> g is Some && final(slot)@,
    {
        if slot.busy {
            return None;
        }
        slot.busy = true;
        Some(InflightGuard { entered: true })
    }

    /// Leaves the slot.
    pub fn release(self, slot: &mut InflightSlot)
        ensures
            !final(slot)@,
    {
        slot.busy = false;
    }
}

// ── Errors ───────────────────────────────────────────────────────

/// What reading one key came to.
#[derive(Debug)]
pub enum KeyReadOutcome {
    Decoded(DecodedKey),
    Eof,
    Interrupted,
    Io(i32),
}

/// How a key read proceeds once the slot is held.
#[derive(Debug)]
pub enum KeyReadPlan {
    /// Fail with this error.
    Fail(CallError),
    /// Raw mode is already active: read directly.
    ReadDirect,
    /// Enter raw mode for this one read, then restore it.
    EnterRawThenRead,
}

/// The checks before a key read: stdin must be a TTY; raw mode already
/// active is used as is, else it is entered just for this read.
pub fn read_key_plan(is_tty: bool, raw_active: bool) -> (p: KeyReadPlan)
    ensures
        !is_tty ==> (p matches KeyReadPlan::Fail(f) && f.code == err::READ_KEY_NOT_A_TTY
            && f.message@ == "ReadKeyNotATty: stdin is not a TTY"@),
        is_tty && raw_active ==> (p matches KeyReadPlan::ReadDirect),
        is_tty && !raw_active ==> (p matches KeyReadPlan::EnterRawThenRead),
{
    if !is_tty {
        return KeyReadPlan::Fail(
            CallError {
                code: err::READ_KEY_NOT_A_TTY,
                message: String::from_str("ReadKeyNotATty: stdin is not a TTY"),
            },
        );
    }
    if raw_active {
        KeyReadPlan::ReadDirect
    } else {
        KeyReadPlan::EnterRawThenRead
    }
}

/// The error reported when raw mode could not be entered for the read.
pub fn raw_mode_failure(errno: i32) -> (f: CallError)
    ensures
        f.code == err::READ_KEY_RAW_MODE,
        f.message@ == "ReadKeyRawMode: failed to enter raw mode (errno "@ + decimal(errno as int)
            + ")"@,
{
    let mut m = String::new();
    push_str(&mut m, "ReadKeyRawMode: failed to enter raw mode (errno ");
    push_decimal(&mut m, errno as i64);
    push_str(&mut m, ")");
    CallError { code: err::READ_KEY_RAW_MODE, message: m }
}

/// The error reported when a second read starts while one is in flight.
pub fn reentry_failure() -> (f: CallError)
    ensures
        f.code == err::READ_KEY_INVALID_STATE,
        f.message@ == "ReadKeyInvalidState: re-entrant ReadKey[]() call"@,
{
    CallError {
        code: err::READ_KEY_INVALID_STATE,
        message: String::from_str("ReadKeyInvalidState: re-entrant ReadKey[]() call"),
    }
}

/// The error a key read outcome reports; `None` for a decoded key.
pub fn key_outcome_error(o: &KeyReadOutcome) -> (r: Option<CallError>)
    ensures
        match o {
            KeyReadOutcome::Decoded(_) => r is None,
            KeyReadOutcome::Eof => r matches Some(f) && f.code == err::READ_KEY_EOF && f.message@
                == "ReadKeyEof: stdin closed"@,
            KeyReadOutcome::Interrupted => r matches Some(f) && f.code
                == err::READ_KEY_INTERRUPTED && f.message@
                == "ReadKeyInterrupted: read interrupted by signal"@,
            KeyReadOutcome::Io(e) => r matches Some(f) && f.code == err::READ_KEY_RAW_MODE
                && f.message@ == "ReadKeyRawMode: read failed (errno "@ + decimal(*e as int)
                + ")"@,
        },
{
    match o {
        KeyReadOutcome::Decoded(_) => None,
        KeyReadOutcome::Eof => Some(
            CallError {
                code: err::READ_KEY_EOF,
                message: String::from_str("ReadKeyEof: stdin closed"),
            },
        ),
        KeyReadOutcome::Interrupted => Some(
            CallError {
                code: err::READ_KEY_INTERRUPTED,
                message: String::from_str("ReadKeyInterrupted: read interrupted by signal"),
            },
        ),
        KeyReadOutcome::Io(e) => {
            let mut m = String::new();
            push_str(&mut m, "ReadKeyRawMode: read failed (errno ");
            push_decimal(&mut m, *e as i64);
            push_str(&mut m, ")");
            Some(CallError { code: err::READ_KEY_RAW_MODE, message: m })
        },
    }
}

} // verus!
