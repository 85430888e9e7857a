//! Event decoding: keys, SGR mouse reports and resizes, with the framing
//! that splits a byte stream into exactly one event per read.

pub mod err;
pub mod pack;
pub mod reader;
pub mod sigwinch;

use vstd::prelude::*;

use crate::key::{
    decode, decode_spec, digits_value, is_digit, utf8_continuation_count, continuation_count,
    DecodedKey, KeyKind, KeyView,
};

verus! {

// ── Kinds ────────────────────────────────────────────────────────

/// Event kinds; the declaration order gives the frozen tags
/// (`Key` = 0 … `Unknown` = 3).
#[derive(Debug, Clone, Copy, PartialEq, Eq, Structural)]
pub enum EventKind {
    Key,
    Mouse,
    Resize,
    Unknown,
}

impl EventKind {
    /// Tag value carried over the host bridge.
    pub fn tag(self) -> (t: i64)
        ensures
            t == match self {
                EventKind::Key => 0i64,
                EventKind::Mouse => 1,
                EventKind::Resize => 2,
                EventKind::Unknown => 3,
            },
    {
        match self {
            EventKind::Key => 0,
            EventKind::Mouse => 1,
            EventKind::Resize => 2,
            EventKind::Unknown => 3,
        }
    }
}

/// Mouse event kinds; the declaration order gives the frozen tags
/// (`Down` = 0 … `ScrollDown` = 5).
#[derive(Debug, Clone, Copy, PartialEq, Eq, Structural)]
pub enum MouseKind {
    Down,
    Up,
    Move,
    Drag,
    ScrollUp,
    ScrollDown,
}

impl MouseKind {
    /// Tag value carried over the host bridge.
    pub fn tag(self) -> (t: i64)
        ensures
            t == match self {
                MouseKind::Down => 0i64,
                MouseKind::Up => 1,
                MouseKind::Move => 2,
                MouseKind::Drag => 3,
                MouseKind::ScrollUp => 4,
                MouseKind::ScrollDown => 5,
            },
    {
        match self {
            MouseKind::Down => 0,
            MouseKind::Up => 1,
            MouseKind::Move => 2,
            MouseKind::Drag => 3,
            MouseKind::ScrollUp => 4,
            MouseKind::ScrollDown => 5,
        }
    }
}

// ── Decoded events ───────────────────────────────────────────────

/// A decoded mouse event: kind, 1-based position, button (0 left,
/// 1 middle, 2 right; 0 for scrolling) and modifiers.
#[derive(Debug, Clone, Copy)]
pub struct DecodedMouse {
    pub kind: MouseKind,
    pub col: i64,
    pub row: i64,
    pub button: i64,
    pub ctrl: bool,
    pub alt: bool,
    pub shift: bool,
}

/// A decoded resize: the new size in cells.
#[derive(Debug, Clone, Copy)]
pub struct DecodedResize {
    pub cols: i64,
    pub rows: i64,
}

/// One decoded event.
#[derive(Debug, Clone)]
pub enum DecodedEvent {
    Key(DecodedKey),
    Mouse(DecodedMouse),
    Resize(DecodedResize),
    Unknown(String),
}

/// Mathematical value of a decoded event.
pub enum EventView {
    Key(KeyView),
    Mouse(DecodedMouse),
    Resize(DecodedResize),
    Unknown(Seq<char>),
}

impl View for DecodedEvent {
    type V = EventView;

    open spec fn view(&self) -> EventView {
        match self {
            DecodedEvent::Key(k) => EventView::Key(k@),
            DecodedEvent::Mouse(m) => EventView::Mouse(*m),
            DecodedEvent::Resize(r) => EventView::Resize(*r),
            DecodedEvent::Unknown(s) => EventView::Unknown(s@),
        }
    }
}

// ── SGR mouse reports ────────────────────────────────────────────

/// Every byte is a decimal digit.
pub open spec fn all_digits(d: Seq<u8>) -> bool {
    forall|i: int| 0 <= i < d.len() ==> is_digit(#[trigger] d[i])
}

/// The digits of an unsigned number: the text after an optional `+`.
pub open spec fn unsigned_digits(f: Seq<u8>) -> Seq<u8> {
    if f.len() > 0 && f[0] == 0x2B {
        f.drop_first()
    } else {
        f
    }
}

/// A field read as a `u32` the way Rust's `str::parse::<u32>` reads it:
/// an optional `+`, then at least one decimal digit, with a value that
/// fits.
pub open spec fn u32_field(f: Seq<u8>) -> Option<u32> {
    let d = unsigned_digits(f);
    if d.len() > 0 && all_digits(d) && digits_value(d) <= u32::MAX {
        Some(digits_value(d) as u32)
    } else {
        None
    }
}

/// Index of the first `b` at or after `from`, or -1.
pub open spec fn find_byte(s: Seq<u8>, from: int, b: u8) -> int
    decreases s.len() - from,
{
    if from < 0 || from >= s.len() {
        -1
    } else if s[from] == b {
        from
    } else {
        find_byte(s, from + 1, b)
    }
}

/// The three `;`-separated numbers of an SGR mouse body: split at the
/// first two `;` (the third field keeps any further `;`, so it then
/// fails to parse).
pub open spec fn sgr_fields(body: Seq<u8>) -> Option<(u32, u32, u32)> {
    let i1 = find_byte(body, 0, 0x3B);
    let i2 = find_byte(body, i1 + 1, 0x3B);
    if i1 < 0 || i2 < 0 {
        None
    } else {
        match (
            u32_field(body.subrange(0, i1)),
            u32_field(body.subrange(i1 + 1, i2)),
            u32_field(body.subrange(i2 + 1, body.len() as int)),
        ) {
            (Some(a), Some(b), Some(c)) => Some((a, b, c)),
            _ => None,
        }
    }
}

/// The mouse event of SGR parameters `pb;pc;pr` with final `M` (press)
/// or `m` (release): `pb` carries the button (low two bits), Shift (4),
/// Alt (8), Ctrl (16), motion (32) and the scroll wheel (64). Motion
/// with no button held (low bits 3) is a hover `Move`, with button 0.
pub open spec fn mouse_spec(pb: u32, pc: u32, pr: u32, release: bool) -> DecodedMouse {
    let low = pb & 3u32;
    let scroll = pb & 64u32 != 0;
    let motion = pb & 32u32 != 0;
    DecodedMouse {
        kind: if scroll {
            if low == 0 {
                MouseKind::ScrollUp
            } else {
                MouseKind::ScrollDown
            }
        } else if motion && low == 3 {
            MouseKind::Move
        } else if motion {
            MouseKind::Drag
        } else if release {
            MouseKind::Up
        } else {
            MouseKind::Down
        },
        col: pc as i64,
        row: pr as i64,
        button: if scroll || (motion && low == 3) {
            0
        } else {
            low as i64
        },
        ctrl: pb & 16u32 != 0,
        alt: pb & 8u32 != 0,
        shift: pb & 4u32 != 0,
    }
}

/// The mouse event an SGR report `ESC [ < Pb ; Pc ; Pr M|m` stands for
/// (at least 9 bytes), or `None`.
pub open spec fn sgr_mouse_spec(buf: Seq<u8>) -> Option<DecodedMouse> {
    if buf.len() < 9 || buf[0] != 0x1B || buf[1] != 0x5B || buf[2] != 0x3C {
        None
    } else if buf.last() != 0x4D && buf.last() != 0x6D {
        None
    } else {
        match sgr_fields(buf.subrange(3, buf.len() - 1)) {
            Some((pb, pc, pr)) => Some(mouse_spec(pb, pc, pr, buf.last() == 0x6D)),
            None => None,
        }
    }
}

/// A longer digit string is worth at least as much as its prefix.
proof fn lemma_digits_grow(p: Seq<u8>, q: Seq<u8>)
    requires
        all_digits(q),
    ensures
        digits_value(p + q) >= digits_value(p),
    decreases q.len(),
{
    if q.len() == 0 {
        assert(p + q =~= p);
    } else {
        lemma_digits_grow(p, q.drop_last());
        assert((p + q).drop_last() =~= p + q.drop_last());
        assert(is_digit(q[q.len() - 1]));
    }
}

/// Reads `buf[start..end]` as a `u32` field.
fn parse_u32_field(buf: &[u8], start: usize, end: usize) -> (r: Option<u32>)
    requires
        start <= end <= buf@.len(),
    ensures
        r == u32_field(buf@.subrange(start as int, end as int)),
{
    let ghost f = buf@.subrange(start as int, end as int);
    let mut i = start;
    if i < end && buf[i] == 0x2B {
        i = i + 1;
    }
    let ds = i;
    let ghost d = buf@.subrange(ds as int, end as int);
    proof {
        assert(unsigned_digits(f) =~= d);
    }
    if ds == end {
        return None;
    }
    let mut acc: u32 = 0;
    proof {
        assert(buf@.subrange(ds as int, ds as int) =~= Seq::<u8>::empty());
    }
    while i < end
        invariant
            start <= ds <= i <= end <= buf@.len(),
            d == buf@.subrange(ds as int, end as int),
            f == buf@.subrange(start as int, end as int),
            unsigned_digits(f) == d,
            all_digits(buf@.subrange(ds as int, i as int)),
            acc as nat == digits_value(buf@.subrange(ds as int, i as int)),
        decreases end - i,
    {
        let b = buf[i];
        if !(0x30 <= b && b <= 0x39) {
            proof {
                assert(!is_digit(d[i - ds]));
                assert(!all_digits(d));
            }
            return None;
        }
        let dv: u32 = (b - 0x30) as u32;
        let ghost pre = buf@.subrange(ds as int, i as int);
        let ghost pre1 = buf@.subrange(ds as int, i + 1);
        proof {
            assert(pre1.drop_last() =~= pre);
            assert(pre1.last() == b);
        }
        if acc > (u32::MAX - dv) / 10 {
            proof {
                assert(digits_value(pre1) > u32::MAX);
                if all_digits(d) {
                    let rest = buf@.subrange(i + 1, end as int);
                    assert(d =~= pre1 + rest);
                    assert forall|k: int| 0 <= k < rest.len() implies is_digit(#[trigger] rest[k]) by {
                        assert(rest[k] == d[k + (i + 1 - ds)]);
                    }
                    lemma_digits_grow(pre1, rest);
                    assert(digits_value(d) > u32::MAX);
                }
            }
            return None;
        }
        acc = acc * 10 + dv;
        proof {
            assert(all_digits(pre1));
        }
        i = i + 1;
    }
    Some(acc)
}

/// Index of the first `b` in `buf[from..end]`, or `end`.
fn find_byte_in(buf: &[u8], from: usize, end: usize, b: u8) -> (r: usize)
    requires
        from <= end,
        end == buf@.len(),
    ensures
        from <= r <= end,
        r < end ==> find_byte(buf@, from as int, b) == r,
        r == end ==> find_byte(buf@, from as int, b) == -1,
{
    let mut i = from;
    while i < end
        invariant
            from <= i <= end,
            end == buf@.len(),
            find_byte(buf@, from as int, b) == find_byte(buf@, i as int, b),
        decreases end - i,
    {
        if buf[i] == b {
            return i;
        }
        i = i + 1;
    }
    i
}

/// Decodes an xterm SGR mouse report `ESC [ < Pb ; Pc ; Pr M|m`: final
/// `M` is a press, `m` a release; `Pc`/`Pr` are the 1-based column and
/// row. Anything else (too short, wrong prefix or final byte, malformed
/// numbers) is `None`.
pub fn decode_sgr_mouse(buf: &[u8]) -> (r: Option<DecodedMouse>)
    ensures
        r == sgr_mouse_spec(buf@),
{
    if buf.len() < 9 {
        return None;
    }
    if buf[0] != 0x1B || buf[1] != 0x5B || buf[2] != 0x3C {
        return None;
    }
    let n = buf.len();
    let final_byte = buf[n - 1];
    if final_byte != 0x4D && final_byte != 0x6D {
        return None;
    }
    let body = &buf[3..n - 1];
    let bn = body.len();
    let i1 = find_byte_in(body, 0, bn, 0x3B);
    if i1 == bn {
        return None;
    }
    let i2 = find_byte_in(body, i1 + 1, bn, 0x3B);
    if i2 == bn {
        proof {
            assert(find_byte(body@, i1 + 1, 0x3B) == -1);
        }
        return None;
    }
    let pb = match parse_u32_field(body, 0, i1) {
        Some(v) => v,
        None => {
            return None;
        },
    };
    let pc = match parse_u32_field(body, i1 + 1, i2) {
        Some(v) => v,
        None => {
            return None;
        },
    };
    let pr = match parse_u32_field(body, i2 + 1, bn) {
        Some(v) => v,
        None => {
            return None;
        },
    };
    let shift = pb & 4 != 0;
    let alt = pb & 8 != 0;
    let ctrl = pb & 16 != 0;
    let low_bits = pb & 3;
    let is_motion = pb & 32 != 0;
    let is_scroll = pb & 64 != 0;
    let is_release = final_byte == 0x6D;
    let (kind, button) = if is_scroll {
        if low_bits == 0 {
            (MouseKind::ScrollUp, 0i64)
        } else {
            (MouseKind::ScrollDown, 0i64)
        }
    } else if is_motion && low_bits == 3 {
        (MouseKind::Move, 0i64)
    } else if is_motion {
        (MouseKind::Drag, low_bits as i64)
    } else if is_release {
        (MouseKind::Up, low_bits as i64)
    } else {
        (MouseKind::Down, low_bits as i64)
    };
    Some(DecodedMouse { kind, col: pc as i64, row: pr as i64, button, ctrl, alt, shift })
}

// ── Framing ──────────────────────────────────────────────────────

/// A CSI final byte.
pub open spec fn is_final_byte(b: u8) -> bool {
    0x40 <= b <= 0x7E
}

/// Index of the first CSI final byte at or after `i`.
pub open spec fn csi_end_from(s: Seq<u8>, i: int) -> Option<int>
    decreases s.len() - i,
{
    if i < 0 || i >= s.len() {
        None
    } else if is_final_byte(s[i]) {
        Some(i)
    } else {
        csi_end_from(s, i + 1)
    }
}

/// Index of the first `M` or `m` at or after `i`.
pub open spec fn sgr_end_from(s: Seq<u8>, i: int) -> Option<int>
    decreases s.len() - i,
{
    if i < 0 || i >= s.len() {
        None
    } else if s[i] == 0x4D || s[i] == 0x6D {
        Some(i)
    } else {
        sgr_end_from(s, i + 1)
    }
}

/// Index of the CSI final byte (0x40..=0x7E) of a sequence starting
/// `ESC [`, searching from index 2.
pub fn find_csi_end(data: &[u8]) -> (r: Option<usize>)
    ensures
        match csi_end_from(data@, 2) {
            Some(e) => r is Some && r->0 == e && e < data@.len(),
            None => r is None,
        },
{
    let mut i: usize = 2;
    while i < data.len()
        invariant
            2 <= i,
            csi_end_from(data@, 2) == csi_end_from(data@, i as int),
        decreases data@.len() - i,
    {
        if 0x40 <= data[i] && data[i] <= 0x7E {
            return Some(i);
        }
        i = i + 1;
    }
    None
}

/// Index of the `M`/`m` ending an SGR mouse report, searching from
/// index 3.
pub fn find_sgr_mouse_end(data: &[u8]) -> (r: Option<usize>)
    ensures
        match sgr_end_from(data@, 3) {
            Some(e) => r is Some && r->0 == e && e < data@.len(),
            None => r is None,
        },
{
    let mut i: usize = 3;
    while i < data.len()
        invariant
            3 <= i,
            sgr_end_from(data@, 3) == sgr_end_from(data@, i as int),
        decreases data@.len() - i,
    {
        if data[i] == 0x4D || data[i] == 0x6D {
            return Some(i);
        }
        i = i + 1;
    }
    None
}

/// The smaller of two integers.
pub open spec fn min_int(a: int, b: int) -> int {
    if a < b {
        a
    } else {
        b
    }
}

/// Bytes taken by the first event of `d`: one byte for a plain byte; a
/// UTF-8 character's bytes (as announced by its leading byte, at most
/// what is there); for ESC: alone one, `ESC [` up to its final byte
/// (`M`/`m` for an SGR mouse report), everything when no final byte has
/// arrived, `ESC O x` three, anything else two.
pub open spec fn frame_len(d: Seq<u8>) -> int {
    if d.len() == 0 {
        0
    } else if d[0] != 0x1B && d[0] < 0x80 {
        1
    } else if d[0] >= 0x80 {
        min_int(1 + continuation_count(d[0]), d.len() as int)
    } else if d.len() == 1 {
        1
    } else if d[1] == 0x5B {
        if d.len() < 3 {
            d.len() as int
        } else if d[2] == 0x3C {
            match sgr_end_from(d, 3) {
                Some(e) => e + 1,
                None => d.len() as int,
            }
        } else {
            match csi_end_from(d, 2) {
                Some(e) => e + 1,
                None => d.len() as int,
            }
        }
    } else if d[1] == 0x4F {
        min_int(3, d.len() as int)
    } else {
        2
    }
}

/// The event a decoded key frame stands for: a key of a known kind is a
/// key event; an unrecognised frame is an `Unknown` event that carries
/// the frame's text, so it is reported and never dropped.
pub open spec fn key_event_view(k: KeyView) -> EventView {
    if k.kind == KeyKind::Unknown {
        EventView::Unknown(k.text)
    } else {
        EventView::Key(k)
    }
}

/// The event for a decoded key frame (see `key_event_view`).
pub fn key_event(dk: DecodedKey) -> (e: DecodedEvent)
    ensures
        e@ == key_event_view(dk@),
        e is Unknown ==> e->Unknown_0@ == dk@.text,
{
    match dk.kind {
        KeyKind::Unknown => DecodedEvent::Unknown(dk.text),
        _ => DecodedEvent::Key(dk),
    }
}

/// The first event of `d`: a complete SGR report decodes as a mouse
/// event when its numbers parse; every other frame decodes as a key,
/// or as an `Unknown` event when the key decoder does not recognise it.
pub open spec fn event_spec(d: Seq<u8>) -> EventView {
    if d.len() == 0 {
        EventView::Unknown(Seq::empty())
    } else {
        let f = d.take(frame_len(d));
        if d[0] == 0x1B && d.len() >= 3 && d[1] == 0x5B && d[2] == 0x3C && sgr_end_from(
            d,
            3,
        ) is Some {
            match sgr_mouse_spec(f) {
                Some(m) => EventView::Mouse(m),
                None => key_event_view(decode_spec(f)),
            }
        } else {
            key_event_view(decode_spec(f))
        }
    }
}

/// Decodes exactly one event from the front of `data` and says how many
/// bytes it took; the rest belongs to later events.
pub fn decode_one_event(data: &[u8]) -> (r: (usize, DecodedEvent))
    ensures
        r.0 == frame_len(data@),
        r.1@ == event_spec(data@),
        data@.len() > 0 ==> 1 <= r.0 <= data@.len(),
        data@.len() == 0 ==> r.0 == 0,
        data@.len() > 0 && r.1 is Unknown ==> r.1->Unknown_0@.len() > 0,
{
    let n = data.len();
    if n == 0 {
        return (0, DecodedEvent::Unknown(String::new()));
    }
    if data[0] != 0x1B && data[0] < 0x80 {
        let dk = decode(&data[0..1]);
        return (1, key_event(dk));
    }
    if data[0] >= 0x80 {
        let expect = utf8_continuation_count(data[0]);
        let char_len = if 1 + expect < n {
            1 + expect
        } else {
            n
        };
        let dk = decode(&data[0..char_len]);
        return (char_len, key_event(dk));
    }
    if n == 1 {
        let dk = decode(&data[0..1]);
        return (1, key_event(dk));
    }
    if data[1] == 0x5B {
        if n < 3 {
            let dk = decode(data);
            proof {
                assert(data@.take(n as int) =~= data@);
            }
            return (n, key_event(dk));
        }
        if data[2] == 0x3C {
            match find_sgr_mouse_end(data) {
                Some(end) => {
                    let seq = &data[0..end + 1];
                    match decode_sgr_mouse(seq) {
                        Some(mouse) => {
                            return (end + 1, DecodedEvent::Mouse(mouse));
                        },
                        None => {
                            let dk = decode(seq);
                            return (end + 1, key_event(dk));
                        },
                    }
                },
                None => {
                    let dk = decode(data);
                    proof {
                        assert(data@.take(n as int) =~= data@);
                    }
                    return (n, key_event(dk));
                },
            }
        }
        match find_csi_end(data) {
            Some(end) => {
                let dk = decode(&data[0..end + 1]);
                return (end + 1, key_event(dk));
            },
            None => {
                let dk = decode(data);
                proof {
                    assert(data@.take(n as int) =~= data@);
                }
                return (n, key_event(dk));
            },
        }
    }
    if data[1] == 0x4F {
        let seq_len: usize = if n < 3 {
            n
        } else {
            3
        };
        let dk = decode(&data[0..seq_len]);
        return (seq_len, key_event(dk));
    }
    let dk = decode(&data[0..2]);
    (2, key_event(dk))
}

/// A CSI final byte found from `i` lies at or after `i`, inside `s`.
proof fn lemma_csi_end_range(s: Seq<u8>, i: int)
    ensures
        csi_end_from(s, i) matches Some(e) ==> i <= e < s.len(),
    decreases s.len() - i,
{
    if 0 <= i < s.len() && !is_final_byte(s[i]) {
        lemma_csi_end_range(s, i + 1);
    }
}

/// An SGR report end found from `i` lies at or after `i`, inside `s`.
proof fn lemma_sgr_end_range(s: Seq<u8>, i: int)
    ensures
        sgr_end_from(s, i) matches Some(e) ==> i <= e < s.len(),
    decreases s.len() - i,
{
    if 0 <= i < s.len() && !(s[i] == 0x4D || s[i] == 0x6D) {
        lemma_sgr_end_range(s, i + 1);
    }
}

/// A search for a CSI final byte that succeeds finds the same byte in
/// any prefix that still holds it.
proof fn lemma_csi_end_prefix(s: Seq<u8>, i: int, m: int)
    requires
        0 <= i,
        csi_end_from(s, i) matches Some(e) && e < m <= s.len(),
    ensures
        csi_end_from(s.take(m), i) == csi_end_from(s, i),
    decreases s.len() - i,
{
    lemma_csi_end_range(s, i);
    assert(s.take(m)[i] == s[i]);
    if !is_final_byte(s[i]) {
        lemma_csi_end_range(s, i + 1);
        lemma_csi_end_prefix(s, i + 1, m);
    }
}

/// The same for the end of an SGR mouse report.
proof fn lemma_sgr_end_prefix(s: Seq<u8>, i: int, m: int)
    requires
        0 <= i,
        sgr_end_from(s, i) matches Some(e) && e < m <= s.len(),
    ensures
        sgr_end_from(s.take(m), i) == sgr_end_from(s, i),
    decreases s.len() - i,
{
    lemma_sgr_end_range(s, i);
    assert(s.take(m)[i] == s[i]);
    if !(s[i] == 0x4D || s[i] == 0x6D) {
        lemma_sgr_end_range(s, i + 1);
        lemma_sgr_end_prefix(s, i + 1, m);
    }
}

/// Framing is stable: the bytes of the first event, taken on their own,
/// frame as exactly those bytes again and decode as the same event, so
/// what follows an event never changes how the event is read.
pub proof fn law_frame_is_self_contained(d: Seq<u8>)
    requires
        d.len() > 0,
    ensures
        frame_len(d.take(frame_len(d))) == frame_len(d),
        event_spec(d.take(frame_len(d))) == event_spec(d),
{
    let f = frame_len(d);
    let p = d.take(f);
    if d[0] == 0x1B && d.len() >= 3 && d[1] == 0x5B {
        if d[2] == 0x3C {
            lemma_sgr_end_range(d, 3);
            if let Some(e) = sgr_end_from(d, 3) {
                lemma_sgr_end_prefix(d, 3, f);
            } else {
                assert(p =~= d);
            }
        } else {
            lemma_csi_end_range(d, 2);
            if let Some(e) = csi_end_from(d, 2) {
                lemma_csi_end_prefix(d, 2, f);
            } else {
                assert(p =~= d);
            }
        }
    } else if d[0] == 0x1B && d.len() < 3 && d[1] == 0x5B {
        assert(p =~= d);
    }
    assert(p.take(frame_len(p)) =~= p);
}

/// The decimal digits of `n` as ASCII bytes, most significant first.
pub open spec fn dec_bytes(n: nat) -> Seq<u8>
    decreases n,
{
    if n < 10 {
        seq![(n + 0x30) as u8]
    } else {
        dec_bytes(n / 10).push((n % 10 + 0x30) as u8)
    }
}

/// The decimal text of `n` is a non-empty digit string worth `n`.
pub proof fn lemma_dec_bytes(n: nat)
    ensures
        dec_bytes(n).len() > 0,
        all_digits(dec_bytes(n)),
        digits_value(dec_bytes(n)) == n,
    decreases n,
{
    let d = dec_bytes(n);
    if n < 10 {
        assert(d.drop_last() =~= Seq::<u8>::empty());
        assert(d.last() as int == n + 0x30);
        assert(digits_value(d) == digits_value(d.drop_last()) * 10 + (d.last() - 0x30) as nat);
    } else {
        lemma_dec_bytes(n / 10);
        assert(d.drop_last() =~= dec_bytes(n / 10));
        assert(d.last() as int == n % 10 + 0x30);
        assert((n / 10) * 10 + n % 10 == n) by (nonlinear_arith);
        assert(digits_value(d) == digits_value(d.drop_last()) * 10 + (d.last() - 0x30) as nat);
        assert forall|i: int| 0 <= i < d.len() implies is_digit(#[trigger] d[i]) by {
            if i < d.len() - 1 {
                assert(d[i] == dec_bytes(n / 10)[i]);
            }
        }
    }
}

/// Searching for `b` from `from` finds it at `k` when it first occurs there.
proof fn lemma_find_byte_at(s: Seq<u8>, from: int, b: u8, k: int)
    requires
        0 <= from <= k < s.len(),
        s[k] == b,
        forall|j: int| from <= j < k ==> s[j] != b,
    ensures
        find_byte(s, from, b) == k,
    decreases k - from,
{
    if from < k {
        lemma_find_byte_at(s, from + 1, b, k);
    }
}

/// A digit string read as a field gives its value.
proof fn lemma_field_of_digits(n: u32)
    ensures
        u32_field(dec_bytes(n as nat)) == Some(n),
{
    lemma_dec_bytes(n as nat);
    let d = dec_bytes(n as nat);
    assert(is_digit(d[0]));
    assert(unsigned_digits(d) == d);
}

/// An SGR mouse report written out from its numbers decodes to the mouse
/// event of those numbers: `ESC [ < Pb ; Pc ; Pr M` (press) or `m`
/// (release), each number in decimal.
pub proof fn law_sgr_report_decodes(pb: u32, pc: u32, pr: u32, release: bool)
    ensures
        ({
            let f: u8 = if release { 0x6D } else { 0x4D };
            let buf = seq![0x1Bu8, 0x5Bu8, 0x3Cu8] + dec_bytes(pb as nat) + seq![0x3Bu8] + dec_bytes(
                pc as nat,
            ) + seq![0x3Bu8] + dec_bytes(pr as nat) + seq![f];
            sgr_mouse_spec(buf) == Some(mouse_spec(pb, pc, pr, release))
        }),
{
    let f: u8 = if release { 0x6D } else { 0x4D };
    let a = dec_bytes(pb as nat);
    let b = dec_bytes(pc as nat);
    let c = dec_bytes(pr as nat);
    lemma_dec_bytes(pb as nat);
    lemma_dec_bytes(pc as nat);
    lemma_dec_bytes(pr as nat);
    let buf = seq![0x1Bu8, 0x5Bu8, 0x3Cu8] + a + seq![0x3Bu8] + b + seq![0x3Bu8] + c + seq![f];
    let body = a + seq![0x3Bu8] + b + seq![0x3Bu8] + c;
    assert(buf.subrange(3, buf.len() - 1) =~= body);
    assert(buf.last() == f);
    let i1 = a.len() as int;
    let i2: int = (a.len() + 1 + b.len()) as int;
    assert forall|j: int| 0 <= j < i1 implies body[j] != 0x3B by {
        assert(body[j] == a[j]);
        assert(is_digit(a[j]));
    }
    lemma_find_byte_at(body, 0, 0x3B, i1);
    assert forall|j: int| i1 + 1 <= j < i2 implies body[j] != 0x3B by {
        assert(body[j] == b[j - i1 - 1]);
        assert(is_digit(b[j - i1 - 1]));
    }
    lemma_find_byte_at(body, i1 + 1, 0x3B, i2);
    assert(body.subrange(0, i1) =~= a);
    assert(body.subrange(i1 + 1, i2) =~= b);
    assert(body.subrange(i2 + 1, body.len() as int) =~= c);
    lemma_field_of_digits(pb);
    lemma_field_of_digits(pc);
    lemma_field_of_digits(pr);
}

/// The SGR report `ESC [ < Pb ; Pc ; Pr M|m`, with the numbers in decimal.
pub open spec fn sgr_report(pb: u32, pc: u32, pr: u32, release: bool) -> Seq<u8> {
    seq![0x1Bu8, 0x5Bu8, 0x3Cu8] + dec_bytes(pb as nat) + seq![0x3Bu8] + dec_bytes(pc as nat) + seq![
        0x3Bu8,
    ] + dec_bytes(pr as nat) + seq![if release { 0x6Du8 } else { 0x4Du8 }]
}

/// What an SGR mouse report means, field by field. The position is
/// `Pc`, `Pr`; Shift, Alt and Ctrl are the bits 4, 8 and 16 of `Pb`. A
/// wheel report (bit 64) scrolls up for low bits 0, else down, with no
/// button. A motion report (bit 32) is a hover `Move` with no button when
/// the low bits are 3 (no button held), else a `Drag` of the button the
/// low bits name. Any other report is a press (`M`) or a release (`m`)
/// of that button.
pub proof fn law_sgr_report_fields(pb: u32, pc: u32, pr: u32, release: bool)
    ensures
        sgr_mouse_spec(sgr_report(pb, pc, pr, release)) matches Some(m) && {
            &&& m.col == pc as i64 && m.row == pr as i64
            &&& m.shift == (pb & 4 != 0) && m.alt == (pb & 8 != 0) && m.ctrl == (pb & 16 != 0)
            &&& pb & 64 != 0 ==> m.button == 0 && m.kind == (if pb & 3 == 0 {
                MouseKind::ScrollUp
            } else {
                MouseKind::ScrollDown
            })
            &&& pb & 64 == 0 && pb & 32 != 0 && pb & 3 == 3 ==> m.kind == MouseKind::Move && m.button
                == 0
            &&& pb & 64 == 0 && pb & 32 != 0 && pb & 3 != 3 ==> m.kind == MouseKind::Drag && m.button
                == (pb & 3) as i64
            &&& pb & 64 == 0 && pb & 32 == 0 ==> m.button == (pb & 3) as i64 && m.kind == (if release {
                MouseKind::Up
            } else {
                MouseKind::Down
            })
        },
{
    law_sgr_report_decodes(pb, pc, pr, release);
    assert(sgr_report(pb, pc, pr, release) == seq![0x1Bu8, 0x5Bu8, 0x3Cu8] + dec_bytes(pb as nat)
        + seq![0x3Bu8] + dec_bytes(pc as nat) + seq![0x3Bu8] + dec_bytes(pr as nat) + seq![
        if release { 0x6Du8 } else { 0x4Du8 }]);
}

} // verus!
