//! Key decoding: one key press from the raw bytes a terminal sends for it.

pub mod err;
pub mod reader;

use vstd::prelude::*;
use vstd::string::*;
use vstd::utf8::*;

use crate::event::{all_digits, dec_bytes, lemma_dec_bytes};
use crate::text::one_char;
use crate::utf8::{lossy_string, str_from_utf8, utf8_lossy, lemma_str_view_from_bytes};

verus! {

/// Key kinds. The declaration order gives each kind its frozen numeric tag
/// (`Char` = 0 … `Unknown` = 27).
#[derive(Debug, Clone, Copy, PartialEq, Eq, Structural)]
pub enum KeyKind {
    Char,
    Enter,
    Escape,
    Tab,
    Backspace,
    Delete,
    ArrowUp,
    ArrowDown,
    ArrowLeft,
    ArrowRight,
    Home,
    End,
    PageUp,
    PageDown,
    Insert,
    F1,
    F2,
    F3,
    F4,
    F5,
    F6,
    F7,
    F8,
    F9,
    F10,
    F11,
    F12,
    Unknown,
}

/// The frozen numeric tag of each key kind.
pub open spec fn key_tag(k: KeyKind) -> i64 {
    match k {
        KeyKind::Char => 0,
        KeyKind::Enter => 1,
        KeyKind::Escape => 2,
        KeyKind::Tab => 3,
        KeyKind::Backspace => 4,
        KeyKind::Delete => 5,
        KeyKind::ArrowUp => 6,
        KeyKind::ArrowDown => 7,
        KeyKind::ArrowLeft => 8,
        KeyKind::ArrowRight => 9,
        KeyKind::Home => 10,
        KeyKind::End => 11,
        KeyKind::PageUp => 12,
        KeyKind::PageDown => 13,
        KeyKind::Insert => 14,
        KeyKind::F1 => 15,
        KeyKind::F2 => 16,
        KeyKind::F3 => 17,
        KeyKind::F4 => 18,
        KeyKind::F5 => 19,
        KeyKind::F6 => 20,
        KeyKind::F7 => 21,
        KeyKind::F8 => 22,
        KeyKind::F9 => 23,
        KeyKind::F10 => 24,
        KeyKind::F11 => 25,
        KeyKind::F12 => 26,
        KeyKind::Unknown => 27,
    }
}

impl KeyKind {
    /// Tag value carried over the host bridge.
    pub fn tag(self) -> (t: i64)
        ensures
            t == key_tag(self),
    {
        match self {
            KeyKind::Char => 0,
            KeyKind::Enter => 1,
            KeyKind::Escape => 2,
            KeyKind::Tab => 3,
            KeyKind::Backspace => 4,
            KeyKind::Delete => 5,
            KeyKind::ArrowUp => 6,
            KeyKind::ArrowDown => 7,
            KeyKind::ArrowLeft => 8,
            KeyKind::ArrowRight => 9,
            KeyKind::Home => 10,
            KeyKind::End => 11,
            KeyKind::PageUp => 12,
            KeyKind::PageDown => 13,
            KeyKind::Insert => 14,
            KeyKind::F1 => 15,
            KeyKind::F2 => 16,
            KeyKind::F3 => 17,
            KeyKind::F4 => 18,
            KeyKind::F5 => 19,
            KeyKind::F6 => 20,
            KeyKind::F7 => 21,
            KeyKind::F8 => 22,
            KeyKind::F9 => 23,
            KeyKind::F10 => 24,
            KeyKind::F11 => 25,
            KeyKind::F12 => 26,
            KeyKind::Unknown => 27,
        }
    }
}

/// One decoded key event.
#[derive(Debug, Clone)]
pub struct DecodedKey {
    pub kind: KeyKind,
    pub text: String,
    pub ctrl: bool,
    pub alt: bool,
    pub shift: bool,
}

/// Mathematical value of a decoded key.
pub struct KeyView {
    pub kind: KeyKind,
    pub text: Seq<char>,
    pub ctrl: bool,
    pub alt: bool,
    pub shift: bool,
}

impl View for DecodedKey {
    type V = KeyView;

    open spec fn view(&self) -> KeyView {
        KeyView {
            kind: self.kind,
            text: self.text@,
            ctrl: self.ctrl,
            alt: self.alt,
            shift: self.shift,
        }
    }
}

/// A key of the given kind, with no text and no modifier.
pub open spec fn plain_key(kind: KeyKind) -> KeyView {
    KeyView { kind, text: seq![], ctrl: false, alt: false, shift: false }
}

/// A `Char` key carrying `text`, with no modifier.
pub open spec fn char_key(text: Seq<char>) -> KeyView {
    KeyView { kind: KeyKind::Char, text, ctrl: false, alt: false, shift: false }
}

/// A `Char` key carrying one character, with only Ctrl held.
pub open spec fn ctrl_char_key(c: char) -> KeyView {
    KeyView { kind: KeyKind::Char, text: seq![c], ctrl: true, alt: false, shift: false }
}

/// An `Unknown` key: the raw bytes, decoded leniently, are its text.
pub open spec fn unknown_key(raw: Seq<u8>) -> KeyView {
    KeyView { kind: KeyKind::Unknown, text: utf8_lossy(raw), ctrl: false, alt: false, shift: false }
}

/// A key with the given kind and modifiers and no text.
pub open spec fn modified_key(kind: KeyKind, mods: (bool, bool, bool)) -> KeyView {
    KeyView { kind, text: seq![], ctrl: mods.0, alt: mods.1, shift: mods.2 }
}

/// The key a single byte stands for.
pub open spec fn single_byte_key(b: u8) -> KeyView {
    if b == 0x0D || b == 0x0A {
        plain_key(KeyKind::Enter)
    } else if b == 0x09 {
        plain_key(KeyKind::Tab)
    } else if b == 0x7F || b == 0x08 {
        plain_key(KeyKind::Backspace)
    } else if b == 0x1B {
        plain_key(KeyKind::Escape)
    } else if b == 0x00 {
        ctrl_char_key(' ')
    } else if 0x01 <= b <= 0x1A {
        ctrl_char_key((b - 1 + 0x61) as char)
    } else if 0x1C <= b <= 0x1F {
        ctrl_char_key((b + 0x40) as char)
    } else if 0x20 <= b <= 0x7E {
        char_key(seq![b as char])
    } else {
        unknown_key(seq![b])
    }
}

/// xterm modifier parameter `m` decoded as (ctrl, alt, shift): `m - 1` is a
/// bit field of Shift (1), Alt (2), Ctrl (4) and Meta (8); Meta counts as Alt.
/// A missing parameter (0) means no modifier.
pub open spec fn modifier_mask_spec(m: u32) -> (bool, bool, bool) {
    if m == 0 {
        (false, false, false)
    } else {
        let bits = (m - 1) as u32;
        ((bits & 4u32) != 0, (bits & 2u32) != 0 || (bits & 8u32) != 0, (bits & 1u32) != 0)
    }
}

/// Decimal digit byte.
pub open spec fn is_digit(b: u8) -> bool {
    0x30 <= b <= 0x39
}

/// Byte allowed among CSI parameters: a digit or `;`.
pub open spec fn is_param_byte(b: u8) -> bool {
    is_digit(b) || b == 0x3B
}

/// Index of the first byte at or after `i` that is not a parameter byte,
/// or the length when there is none.
pub open spec fn scan_params(buf: Seq<u8>, i: int) -> int
    decreases buf.len() - i,
{
    if i >= buf.len() {
        buf.len() as int
    } else if !is_param_byte(buf[i]) {
        i
    } else {
        scan_params(buf, i + 1)
    }
}

/// `s` split at every `;` (always at least one field).
pub open spec fn split_fields(s: Seq<u8>) -> Seq<Seq<u8>>
    decreases s.len(),
{
    if s.len() == 0 {
        seq![seq![]]
    } else {
        let p = split_fields(s.drop_last());
        if s.last() == 0x3B {
            p.push(seq![])
        } else {
            p.update(p.len() - 1, p.last().push(s.last()))
        }
    }
}

/// Decimal value of a digit string.
pub open spec fn digits_value(d: Seq<u8>) -> nat
    decreases d.len(),
{
    if d.len() == 0 {
        0
    } else {
        digits_value(d.drop_last()) * 10 + (d.last() - 0x30) as nat
    }
}

/// Decimal value of a digit string, saturated at `u32::MAX`.
pub open spec fn sat_value(d: Seq<u8>) -> u32 {
    if digits_value(d) > u32::MAX {
        u32::MAX
    } else {
        digits_value(d) as u32
    }
}

/// The CSI parameters of a parameter body: the first four `;`-terminated
/// fields, then the trailing field when it is non-empty and fewer than four
/// were taken. Empty fields count as 0; values saturate at `u32::MAX`.
pub open spec fn csi_params(body: Seq<u8>) -> Seq<u32> {
    let g = split_fields(body);
    let k: int = if g.len() - 1 < 4 { g.len() - 1 } else { 4 };
    let first = g.take(k).map_values(|f: Seq<u8>| sat_value(f));
    if k < 4 && g.last().len() > 0 {
        first.push(sat_value(g.last()))
    } else {
        first
    }
}

/// Key named by a CSI sequence with final byte `fin` and parameters `p`.
pub open spec fn csi_kind(fin: u8, p: Seq<u32>) -> Option<KeyKind> {
    if fin == 0x41 {
        Some(KeyKind::ArrowUp)
    } else if fin == 0x42 {
        Some(KeyKind::ArrowDown)
    } else if fin == 0x43 {
        Some(KeyKind::ArrowRight)
    } else if fin == 0x44 {
        Some(KeyKind::ArrowLeft)
    } else if fin == 0x48 {
        Some(KeyKind::Home)
    } else if fin == 0x46 {
        Some(KeyKind::End)
    } else if fin == 0x50 {
        Some(KeyKind::F1)
    } else if fin == 0x51 {
        Some(KeyKind::F2)
    } else if fin == 0x52 {
        Some(KeyKind::F3)
    } else if fin == 0x53 {
        Some(KeyKind::F4)
    } else if fin == 0x7E && p.len() >= 1 {
        tilde_kind(p[0])
    } else {
        None
    }
}

/// Key named by `ESC [ n ~`.
pub open spec fn tilde_kind(n: u32) -> Option<KeyKind> {
    if n == 1 || n == 7 {
        Some(KeyKind::Home)
    } else if n == 2 {
        Some(KeyKind::Insert)
    } else if n == 3 {
        Some(KeyKind::Delete)
    } else if n == 4 || n == 8 {
        Some(KeyKind::End)
    } else if n == 5 {
        Some(KeyKind::PageUp)
    } else if n == 6 {
        Some(KeyKind::PageDown)
    } else if n == 11 {
        Some(KeyKind::F1)
    } else if n == 12 {
        Some(KeyKind::F2)
    } else if n == 13 {
        Some(KeyKind::F3)
    } else if n == 14 {
        Some(KeyKind::F4)
    } else if n == 15 {
        Some(KeyKind::F5)
    } else if n == 17 {
        Some(KeyKind::F6)
    } else if n == 18 {
        Some(KeyKind::F7)
    } else if n == 19 {
        Some(KeyKind::F8)
    } else if n == 20 {
        Some(KeyKind::F9)
    } else if n == 21 {
        Some(KeyKind::F10)
    } else if n == 23 {
        Some(KeyKind::F11)
    } else if n == 24 {
        Some(KeyKind::F12)
    } else {
        None
    }
}

/// Key for a CSI sequence `ESC [ params final` (buffer starting `ESC [`):
/// the parameters run up to the first non-parameter byte, which is the
/// final byte; the second parameter, when present, carries the modifiers.
pub open spec fn csi_key(buf: Seq<u8>) -> KeyView {
    if buf.len() < 3 {
        unknown_key(buf)
    } else {
        let j = scan_params(buf, 2);
        if j >= buf.len() {
            unknown_key(buf)
        } else {
            let p = csi_params(buf.subrange(2, j));
            let m: u32 = if p.len() >= 2 { p[1] } else { 0 };
            match csi_kind(buf[j], p) {
                Some(k) => modified_key(k, modifier_mask_spec(m)),
                None => unknown_key(buf),
            }
        }
    }
}

/// Key named by an SS3 sequence `ESC O x`.
pub open spec fn ss3_kind(b: u8) -> Option<KeyKind> {
    if b == 0x41 {
        Some(KeyKind::ArrowUp)
    } else if b == 0x42 {
        Some(KeyKind::ArrowDown)
    } else if b == 0x43 {
        Some(KeyKind::ArrowRight)
    } else if b == 0x44 {
        Some(KeyKind::ArrowLeft)
    } else if b == 0x48 {
        Some(KeyKind::Home)
    } else if b == 0x46 {
        Some(KeyKind::End)
    } else if b == 0x50 {
        Some(KeyKind::F1)
    } else if b == 0x51 {
        Some(KeyKind::F2)
    } else if b == 0x52 {
        Some(KeyKind::F3)
    } else if b == 0x53 {
        Some(KeyKind::F4)
    } else {
        None
    }
}

/// Key for an SS3 sequence (buffer starting `ESC O`). Only the third byte
/// is looked at.
pub open spec fn ss3_key(buf: Seq<u8>) -> KeyView {
    if buf.len() < 3 {
        unknown_key(buf)
    } else {
        match ss3_kind(buf[2]) {
            Some(k) => plain_key(k),
            None => unknown_key(buf),
        }
    }
}

/// The same key with Alt held.
pub open spec fn with_alt(k: KeyView) -> KeyView {
    KeyView { alt: true, ..k }
}

/// The key that a buffer of bytes stands for.
///
/// - empty: `Unknown` with empty text;
/// - one byte: see [`single_byte_key`];
/// - several bytes not starting with ESC: a `Char` when they are the UTF-8
///   encoding of exactly one character, else `Unknown`;
/// - ESC `[` …: CSI, ESC `O` …: SS3, ESC ESC …: the rest decoded with Alt
///   held, ESC + printable: that character with Alt held, else `Unknown`.
///
/// `Unknown` keys carry the raw bytes as (leniently decoded) text.
pub open spec fn decode_spec(buf: Seq<u8>) -> KeyView
    decreases buf.len(),
{
    if buf.len() == 0 {
        unknown_key(buf)
    } else if buf.len() == 1 {
        single_byte_key(buf[0])
    } else if buf[0] != 0x1B {
        if valid_utf8(buf) && decode_utf8(buf).len() == 1 {
            char_key(decode_utf8(buf))
        } else {
            unknown_key(buf)
        }
    } else if buf[1] == 0x5B {
        csi_key(buf)
    } else if buf[1] == 0x4F {
        ss3_key(buf)
    } else if buf[1] == 0x1B {
        with_alt(decode_spec(buf.drop_first()))
    } else if 0x20 <= buf[1] <= 0x7E {
        KeyView { kind: KeyKind::Char, text: seq![buf[1] as char], ctrl: false, alt: true, shift: false }
    } else {
        unknown_key(buf)
    }
}

impl DecodedKey {
    /// A key of the given kind, with no text and no modifier.
    fn plain(kind: KeyKind) -> (k: DecodedKey)
        ensures
            k@ == plain_key(kind),
    {
        DecodedKey { kind, text: String::new(), ctrl: false, alt: false, shift: false }
    }

    /// A `Char` key carrying `text`, with no modifier.
    fn ch(text: String) -> (k: DecodedKey)
        ensures
            k@ == char_key(text@),
    {
        DecodedKey { kind: KeyKind::Char, text, ctrl: false, alt: false, shift: false }
    }

    /// An `Unknown` key carrying the raw bytes, decoded leniently.
    fn unknown(raw: &[u8]) -> (k: DecodedKey)
        ensures
            k@ == unknown_key(raw@),
            raw@.len() > 0 ==> k@.text.len() > 0,
    {
        DecodedKey {
            kind: KeyKind::Unknown,
            text: lossy_string(raw),
            ctrl: false,
            alt: false,
            shift: false,
        }
    }
}

/// Decodes one key event from `buf`. Bytes that match no known form come
/// back as `Unknown`, carrying the raw bytes, so nothing is dropped.
pub fn decode(buf: &[u8]) -> (k: DecodedKey)
    ensures
        k@ == decode_spec(buf@),
        buf@.len() > 0 && k@.kind == KeyKind::Unknown ==> k@.text.len() > 0,
    decreases buf@.len(),
{
    if buf.len() == 0 {
        return DecodedKey::unknown(buf);
    }
    if buf.len() == 1 {
        return decode_single_byte(buf[0]);
    }
    if buf[0] != 0x1B {
        match utf8_single_char(buf) {
            Some(c) => {
                return DecodedKey::ch(one_char(c));
            },
            None => {
                return DecodedKey::unknown(buf);
            },
        }
    }
    decode_escape(buf)
}

/// The key for a single byte.
pub fn decode_single_byte(b: u8) -> (k: DecodedKey)
    ensures
        k@ == single_byte_key(b),
        k@.kind == KeyKind::Unknown ==> k@.text.len() > 0,
{
    if b == 0x0D || b == 0x0A {
        DecodedKey::plain(KeyKind::Enter)
    } else if b == 0x09 {
        DecodedKey::plain(KeyKind::Tab)
    } else if b == 0x7F || b == 0x08 {
        DecodedKey::plain(KeyKind::Backspace)
    } else if b == 0x1B {
        DecodedKey::plain(KeyKind::Escape)
    } else if b == 0x00 {
        DecodedKey { kind: KeyKind::Char, text: one_char(' '), ctrl: true, alt: false, shift: false }
    } else if 0x01 <= b && b <= 0x1A {
        let c: u8 = b - 1 + 0x61;
        DecodedKey { kind: KeyKind::Char, text: one_char(c as char), ctrl: true, alt: false, shift: false }
    } else if 0x1C <= b && b <= 0x1F {
        let c: u8 = b + 0x40;
        DecodedKey { kind: KeyKind::Char, text: one_char(c as char), ctrl: true, alt: false, shift: false }
    } else if 0x20 <= b && b <= 0x7E {
        DecodedKey::ch(one_char(b as char))
    } else {
        let raw: [u8; 1] = [b];
        let k = DecodedKey::unknown(raw.as_slice());
        proof {
            assert(raw@ =~= seq![b]);
        }
        k
    }
}

/// The single character `buf` encodes in UTF-8, if it is valid UTF-8 of
/// exactly one character.
pub fn utf8_single_char(buf: &[u8]) -> (r: Option<char>)
    ensures
        r is Some <==> (valid_utf8(buf@) && decode_utf8(buf@).len() == 1),
        r matches Some(c) ==> decode_utf8(buf@) == seq![c],
{
    match str_from_utf8(buf) {
        None => None,
        Some(s) => {
            proof {
                lemma_str_view_from_bytes(s, buf@);
            }
            if s.unicode_len() != 1 {
                return None;
            }
            let c = s.get_char(0);
            proof {
                assert(s@ =~= seq![c]);
            }
            Some(c)
        },
    }
}

/// Decodes a buffer that starts with ESC and has at least two bytes.
fn decode_escape(buf: &[u8]) -> (k: DecodedKey)
    requires
        buf@.len() >= 2,
        buf@[0] == 0x1B,
    ensures
        k@ == decode_spec(buf@),
        k@.kind == KeyKind::Unknown ==> k@.text.len() > 0,
    decreases buf@.len(), 0int,
{
    let b1 = buf[1];
    if b1 == 0x5B {
        decode_csi(buf)
    } else if b1 == 0x4F {
        decode_ss3(buf)
    } else if b1 == 0x1B {
        let rest = &buf[1..buf.len()];
        proof {
            assert(rest@ =~= buf@.drop_first());
        }
        let mut inner = decode(rest);
        inner.alt = true;
        inner
    } else if 0x20 <= b1 && b1 <= 0x7E {
        DecodedKey { kind: KeyKind::Char, text: one_char(b1 as char), ctrl: false, alt: true, shift: false }
    } else {
        DecodedKey::unknown(buf)
    }
}

/// Decodes an xterm modifier parameter into (ctrl, alt, shift).
pub fn decode_modifier_mask(m: u32) -> (r: (bool, bool, bool))
    ensures
        r == modifier_mask_spec(m),
{
    if m == 0 {
        return (false, false, false);
    }
    let bits = m - 1;
    let shift = bits & 1 != 0;
    let alt = bits & 2 != 0;
    let ctrl = bits & 4 != 0;
    let meta = bits & 8 != 0;
    (ctrl, alt || meta, shift)
}

/// Key named by the final byte of a CSI sequence and its parameters.
fn csi_kind_of(fin: u8, params: &Vec<u32>) -> (r: Option<KeyKind>)
    ensures
        r == csi_kind(fin, params@),
{
    if fin == 0x41 {
        Some(KeyKind::ArrowUp)
    } else if fin == 0x42 {
        Some(KeyKind::ArrowDown)
    } else if fin == 0x43 {
        Some(KeyKind::ArrowRight)
    } else if fin == 0x44 {
        Some(KeyKind::ArrowLeft)
    } else if fin == 0x48 {
        Some(KeyKind::Home)
    } else if fin == 0x46 {
        Some(KeyKind::End)
    } else if fin == 0x50 {
        Some(KeyKind::F1)
    } else if fin == 0x51 {
        Some(KeyKind::F2)
    } else if fin == 0x52 {
        Some(KeyKind::F3)
    } else if fin == 0x53 {
        Some(KeyKind::F4)
    } else if fin == 0x7E && params.len() >= 1 {
        let n = params[0];
        if n == 1 || n == 7 {
            Some(KeyKind::Home)
        } else if n == 2 {
            Some(KeyKind::Insert)
        } else if n == 3 {
            Some(KeyKind::Delete)
        } else if n == 4 || n == 8 {
            Some(KeyKind::End)
        } else if n == 5 {
            Some(KeyKind::PageUp)
        } else if n == 6 {
            Some(KeyKind::PageDown)
        } else if n == 11 {
            Some(KeyKind::F1)
        } else if n == 12 {
            Some(KeyKind::F2)
        } else if n == 13 {
            Some(KeyKind::F3)
        } else if n == 14 {
            Some(KeyKind::F4)
        } else if n == 15 {
            Some(KeyKind::F5)
        } else if n == 17 {
            Some(KeyKind::F6)
        } else if n == 18 {
            Some(KeyKind::F7)
        } else if n == 19 {
            Some(KeyKind::F8)
        } else if n == 20 {
            Some(KeyKind::F9)
        } else if n == 21 {
            Some(KeyKind::F10)
        } else if n == 23 {
            Some(KeyKind::F11)
        } else if n == 24 {
            Some(KeyKind::F12)
        } else {
            None
        }
    } else {
        None
    }
}

/// One more digit on a saturated decimal value.
proof fn lemma_sat_digit(f: Seq<u8>, b: u8)
    requires
        is_digit(b),
    ensures
        sat_value(f.push(b)) == (if sat_value(f) > 429496729 {
            u32::MAX as int
        } else if sat_value(f) * 10 > u32::MAX - (b - 0x30) {
            u32::MAX as int
        } else {
            sat_value(f) * 10 + (b - 0x30)
        }),
{
    assert(f.push(b).drop_last() =~= f);
    assert(f.push(b).last() == b);
}

/// Parameter split after one more byte.
proof fn lemma_split_push(s: Seq<u8>, b: u8)
    ensures
        split_fields(s.push(b)) == (if b == 0x3B {
            split_fields(s).push(seq![])
        } else {
            split_fields(s).update(split_fields(s).len() - 1, split_fields(s).last().push(b))
        }),
{
    assert(s.push(b).drop_last() =~= s);
}

/// The split always has at least one field.
proof fn lemma_split_nonempty(s: Seq<u8>)
    ensures
        split_fields(s).len() >= 1,
    decreases s.len(),
{
    if s.len() > 0 {
        lemma_split_nonempty(s.drop_last());
    }
}

/// Parameters collected so far while scanning, capped at four.
spec fn params_done(g: Seq<Seq<u8>>) -> Seq<u32> {
    let k: int = if g.len() - 1 < 4 { g.len() - 1 } else { 4 };
    g.take(k).map_values(|f: Seq<u8>| sat_value(f))
}

/// Decodes a CSI sequence (buffer starting `ESC [`).
fn decode_csi(buf: &[u8]) -> (k: DecodedKey)
    requires
        buf@.len() >= 2,
        buf@[0] == 0x1B,
        buf@[1] == 0x5B,
    ensures
        k@ == decode_spec(buf@),
        k@.kind == KeyKind::Unknown ==> k@.text.len() > 0,
{
    if buf.len() < 3 {
        return DecodedKey::unknown(buf);
    }
    let ghost s = buf@;
    let mut params: Vec<u32> = Vec::new();
    let mut cur: u32 = 0;
    let mut have_digits = false;
    let mut i: usize = 2;
    proof {
        assert(s.subrange(2, 2) =~= Seq::<u8>::empty());
        assert(split_fields(Seq::<u8>::empty()) == seq![Seq::<u8>::empty()]);
        assert(params_done(seq![Seq::<u8>::empty()]) =~= Seq::<u32>::empty());
    }
    while i < buf.len() && (buf[i] == 0x3B || (0x30 <= buf[i] && buf[i] <= 0x39))
        invariant
            s == buf@,
            2 <= i <= s.len(),
            scan_params(s, 2) == scan_params(s, i as int),
            forall|t: int| 2 <= t < i ==> is_param_byte(#[trigger] s[t]),
            split_fields(s.subrange(2, i as int)).len() >= 1,
            params@ == params_done(split_fields(s.subrange(2, i as int))),
            cur == sat_value(split_fields(s.subrange(2, i as int)).last()),
            have_digits == (split_fields(s.subrange(2, i as int)).last().len() > 0),
        decreases s.len() - i,
    {
        let b = buf[i];
        let ghost pre = s.subrange(2, i as int);
        let ghost g = split_fields(pre);
        if 0x30 <= b && b <= 0x39 {
            proof {
                lemma_sat_digit(g.last(), b);
                lemma_split_push(pre, b);
                assert(s.subrange(2, i + 1) =~= pre.push(b));
                let g2 = split_fields(pre.push(b));
                assert(g2.len() == g.len());
                assert(g2.take(g2.len() - 1) =~= g.take(g.len() - 1));
                let k: int = if g.len() - 1 < 4 { g.len() - 1 } else { 4 };
                assert(g2.take(k) =~= g.take(k));
            }
            let d: u32 = (b - 0x30) as u32;
            if cur > 429496729 {
                cur = u32::MAX;
            } else if cur * 10 > u32::MAX - d {
                cur = u32::MAX;
            } else {
                cur = cur * 10 + d;
            }
            have_digits = true;
            i = i + 1;
        } else {
            proof {
                lemma_split_push(pre, b);
                assert(s.subrange(2, i + 1) =~= pre.push(b));
                let g2 = split_fields(pre.push(b));
                assert(g2 =~= g.push(seq![]));
                if g.len() - 1 < 4 {
                    assert(g2.take(g.len() as int) =~= g.take(g.len() - 1).push(g.last()));
                } else {
                    assert(g2.take(4) =~= g.take(4));
                }
            }
            if params.len() < 4 {
                params.push(if have_digits { cur } else { 0 });
                proof {
                    let g2 = split_fields(pre.push(b));
                    assert(params@ =~= params_done(g2));
                }
            }
            cur = 0;
            have_digits = false;
            proof {
                assert(sat_value(Seq::<u8>::empty()) == 0);
            }
            i = i + 1;
        }
        proof {
            assert(scan_params(s, (i - 1) as int) == scan_params(s, i as int));
        }
    }
    let ghost j = i as int;
    proof {
        if j < s.len() {
            assert(!is_param_byte(s[j]));
        }
        assert(scan_params(s, j) == j);
    }
    if i >= buf.len() {
        return DecodedKey::unknown(buf);
    }
    let ghost g = split_fields(s.subrange(2, j));
    if have_digits && params.len() < 4 {
        params.push(cur);
    }
    proof {
        assert(params@ =~= csi_params(s.subrange(2, j)));
    }
    let fin = buf[i];
    let modifier_param: u32 = if params.len() >= 2 { params[1] } else { 0 };
    let (ctrl, alt, shift) = decode_modifier_mask(modifier_param);
    match csi_kind_of(fin, &params) {
        Some(kind) => DecodedKey { kind, text: String::new(), ctrl, alt, shift },
        None => DecodedKey::unknown(buf),
    }
}

/// Decodes an SS3 sequence (buffer starting `ESC O`).
fn decode_ss3(buf: &[u8]) -> (k: DecodedKey)
    requires
        buf@.len() >= 2,
        buf@[0] == 0x1B,
        buf@[1] == 0x4F,
    ensures
        k@ == decode_spec(buf@),
        k@.kind == KeyKind::Unknown ==> k@.text.len() > 0,
{
    if buf.len() < 3 {
        return DecodedKey::unknown(buf);
    }
    let b = buf[2];
    let kind = if b == 0x41 {
        KeyKind::ArrowUp
    } else if b == 0x42 {
        KeyKind::ArrowDown
    } else if b == 0x43 {
        KeyKind::ArrowRight
    } else if b == 0x44 {
        KeyKind::ArrowLeft
    } else if b == 0x48 {
        KeyKind::Home
    } else if b == 0x46 {
        KeyKind::End
    } else if b == 0x50 {
        KeyKind::F1
    } else if b == 0x51 {
        KeyKind::F2
    } else if b == 0x52 {
        KeyKind::F3
    } else if b == 0x53 {
        KeyKind::F4
    } else {
        return DecodedKey::unknown(buf);
    };
    DecodedKey::plain(kind)
}

/// Number of continuation bytes announced by a UTF-8 leading byte (0 for
/// anything that is not a multi-byte leading byte).
pub open spec fn continuation_count(b: u8) -> usize {
    if b & 0xE0 == 0xC0 {
        1
    } else if b & 0xF0 == 0xE0 {
        2
    } else if b & 0xF8 == 0xF0 {
        3
    } else {
        0
    }
}

/// Continuation bytes that follow the UTF-8 leading byte `b`.
pub fn utf8_continuation_count(b: u8) -> (n: usize)
    ensures
        n == continuation_count(b),
        n <= 3,
{
    if b & 0xE0 == 0xC0 {
        1
    } else if b & 0xF0 == 0xE0 {
        2
    } else if b & 0xF8 == 0xF0 {
        3
    } else {
        0
    }
}

/// A single printable character, sent as its UTF-8 bytes, decodes as a
/// `Char` key carrying exactly that character and no modifier. (The
/// control characters below U+0020 and DEL are keys of their own.)
pub proof fn law_one_char_decodes_as_itself(c: char)
    requires
        0x20 <= (c as u32) <= 0x7E || (c as u32) >= 0x80,
    ensures
        decode_spec(encode_utf8(seq![c])) == char_key(seq![c]),
{
    let bytes = encode_utf8(seq![c]);
    encode_utf8_valid_utf8(seq![c]);
    encode_utf8_decode_utf8(seq![c]);
    assert(seq![c].drop_first() =~= Seq::<char>::empty());
    assert(encode_utf8(Seq::<char>::empty()) =~= Seq::<u8>::empty());
    assert(bytes =~= encode_scalar(c as u32));
    let v = c as u32;
    if v <= 0x7F {
        assert(leading_byte_width_1(v) == v) by (bit_vector)
            requires
                v <= 0x7F,
        ;
        assert(bytes =~= seq![v as u8]);
        assert(((v as u8) as char) == c);
    } else {
        char_is_scalar(c);
        let b0 = bytes[0];
        if has_width_2_encoding(v) {
            assert(leading_byte_width_2(v) >= 0xC0) by (bit_vector);
        } else if has_width_3_encoding(v) {
            assert(leading_byte_width_3(v) >= 0xE0) by (bit_vector);
        } else {
            assert(leading_byte_width_4(v) >= 0xF0) by (bit_vector);
        }
        assert(b0 != 0x1B);
        assert(bytes.len() >= 2);
    }
}

/// A key sent with one ESC in front of its own ESC sequence (how
/// terminals send Alt with an arrow or function key, and Alt+Escape)
/// decodes as that key with Alt set; nothing else about it changes.
pub proof fn law_escape_prefix_sets_alt(rest: Seq<u8>)
    requires
        rest.len() > 0,
        rest[0] == 0x1B,
    ensures
        decode_spec(seq![0x1Bu8] + rest) == with_alt(decode_spec(rest)),
        decode_spec(seq![0x1Bu8] + rest).alt,
{
    let buf = seq![0x1Bu8] + rest;
    assert(buf.drop_first() =~= rest);
    assert(buf[1] == 0x1B);
}

/// The scan over CSI parameter bytes from `i` stops at the first byte
/// that is not one.
proof fn lemma_scan_params_at(buf: Seq<u8>, i: int, j: int)
    requires
        0 <= i <= j < buf.len(),
        forall|k: int| i <= k < j ==> is_param_byte(#[trigger] buf[k]),
        !is_param_byte(buf[j]),
    ensures
        scan_params(buf, i) == j,
    decreases j - i,
{
    if i < j {
        lemma_scan_params_at(buf, i + 1, j);
    }
}

/// Text without `;` extends the last field.
proof fn lemma_split_extend(s: Seq<u8>, t: Seq<u8>)
    requires
        forall|k: int| 0 <= k < t.len() ==> #[trigger] t[k] != 0x3B,
    ensures
        split_fields(s + t) == split_fields(s).update(
            split_fields(s).len() - 1,
            split_fields(s).last() + t,
        ),
    decreases t.len(),
{
    lemma_split_nonempty(s);
    let g = split_fields(s);
    if t.len() == 0 {
        assert(s + t =~= s);
        assert(g.last() + t =~= g.last());
        assert(g.update(g.len() - 1, g.last()) =~= g);
    } else {
        let t0 = t.drop_last();
        assert forall|k: int| 0 <= k < t0.len() implies #[trigger] t0[k] != 0x3B by {
            assert(t0[k] == t[k]);
        }
        lemma_split_extend(s, t0);
        assert((s + t).drop_last() =~= s + t0);
        assert((s + t).last() == t.last());
        lemma_split_nonempty(s + t0);
        let p = split_fields(s + t0);
        assert(p.len() == g.len());
        assert(split_fields(s + t) == p.update(p.len() - 1, p.last().push(t.last())));
        assert(p.last() == g.last() + t0);
        assert((g.last() + t0).push(t.last()) =~= g.last() + t);
        assert(split_fields(s + t) =~= g.update(g.len() - 1, g.last() + t));
    }
}

/// The key sequence `ESC [ n ; m F`, with `n` and `m` in decimal.
pub open spec fn csi_report(n: u32, m: u32, fin: u8) -> Seq<u8> {
    seq![0x1Bu8, 0x5Bu8] + dec_bytes(n as nat) + seq![0x3Bu8] + dec_bytes(m as nat) + seq![fin]
}

/// The modifiers of a CSI key are the xterm decoding of its second
/// parameter `m`, whatever the final byte: for `ESC [ n ; m ~` naming a
/// key and for `ESC [ 1 ; m F` with a letter final, `m - 1` is a bit
/// field of Shift (1), Alt (2), Ctrl (4) and Meta (8, counted as Alt); a
/// zero `m` means none. The key carries no text, and the tilde form
/// names the key of its first parameter.
pub proof fn law_csi_key_modifiers(n: u32, m: u32, fin: u8)
    requires
        (fin == 0x7E && tilde_kind(n) is Some) || (n == 1 && (fin == 0x41 || fin == 0x42 || fin
            == 0x43 || fin == 0x44 || fin == 0x46 || fin == 0x48 || fin == 0x50 || fin == 0x51
            || fin == 0x52 || fin == 0x53)),
    ensures
        ({
            let k = decode_spec(csi_report(n, m, fin));
            &&& k.kind != KeyKind::Unknown
            &&& k.text.len() == 0
            &&& fin == 0x7E ==> Some(k.kind) == tilde_kind(n)
            &&& m == 0 ==> !k.ctrl && !k.alt && !k.shift
            &&& m >= 1 ==> k.ctrl == ((((m - 1) as u32) & 4u32) != 0) && k.alt == ((((m - 1) as u32)
                & 2u32) != 0 || (((m - 1) as u32) & 8u32) != 0) && k.shift == ((((m - 1) as u32)
                & 1u32) != 0)
        }),
{
    let a = dec_bytes(n as nat);
    let b = dec_bytes(m as nat);
    lemma_dec_bytes(n as nat);
    lemma_dec_bytes(m as nat);
    let buf = csi_report(n, m, fin);
    let j: int = (2 + a.len() + 1 + b.len()) as int;
    assert(buf.len() == j + 1);
    assert(buf[j] == fin);
    assert forall|k: int| 2 <= k < j implies is_param_byte(#[trigger] buf[k]) by {
        if k < 2 + a.len() {
            assert(buf[k] == a[k - 2]);
            assert(is_digit(a[k - 2]));
        } else if k == 2 + a.len() {
        } else {
            assert(buf[k] == b[k - 3 - a.len()]);
            assert(is_digit(b[k - 3 - a.len()]));
        }
    }
    lemma_scan_params_at(buf, 2, j);
    let body = buf.subrange(2, j);
    assert(body =~= a + seq![0x3Bu8] + b);
    assert forall|k: int| 0 <= k < a.len() implies #[trigger] a[k] != 0x3B by {
        assert(is_digit(a[k]));
    }
    assert forall|k: int| 0 <= k < b.len() implies #[trigger] b[k] != 0x3B by {
        assert(is_digit(b[k]));
    }
    let e: Seq<u8> = Seq::empty();
    assert(split_fields(e) == seq![e]);
    lemma_split_extend(e, a);
    assert(e + a =~= a);
    assert(split_fields(a) =~= seq![a]);
    let a1 = a + seq![0x3Bu8];
    assert(a1.drop_last() =~= a);
    assert(split_fields(a1) =~= seq![a, e]);
    lemma_split_extend(a1, b);
    assert(e + b =~= b);
    assert(split_fields(a1 + b) =~= seq![a, b]);
    assert(a1 + b =~= body);
    let g = split_fields(body);
    assert(g.take(1).map_values(|f: Seq<u8>| sat_value(f)) =~= seq![sat_value(a)]);
    assert(sat_value(a) == n);
    assert(sat_value(b) == m);
    assert(csi_params(body) =~= seq![n, m]);
}

} // verus!
