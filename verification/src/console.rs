//! Windows console input: turning console input records (virtual key
//! codes, UTF-16 units, control-key flags, mouse records) into keys and
//! mouse events, and the console modes that raw input and VT output
//! need. The records are read, and the modes set, by the caller.

pub mod err;
pub mod event_kind;
pub mod key_kind;
pub mod mouse_kind;

use vstd::prelude::*;

use crate::event::MouseKind;
use crate::text::{one_char, push_char};

verus! {

/// Whether VT processing could be enabled on the console.
#[derive(Debug, Clone, Copy, PartialEq, Eq, Structural)]
pub enum VtModeStatus {
    Enabled,
    Failed,
}

/// Right Alt held.
pub const RIGHT_ALT_PRESSED: u32 = 0x0001;
/// Left Alt held.
pub const LEFT_ALT_PRESSED: u32 = 0x0002;
/// Right Ctrl held.
pub const RIGHT_CTRL_PRESSED: u32 = 0x0004;
/// Left Ctrl held.
pub const LEFT_CTRL_PRESSED: u32 = 0x0008;
/// Shift held.
pub const SHIFT_PRESSED: u32 = 0x0010;

/// Input mode flag: Ctrl+C and friends are handled by the system.
pub const ENABLE_PROCESSED_INPUT: u32 = 0x0001;
/// Input mode flag: reads return only complete lines.
pub const ENABLE_LINE_INPUT: u32 = 0x0002;
/// Input mode flag: typed characters are echoed.
pub const ENABLE_ECHO_INPUT: u32 = 0x0004;
/// Input mode flag: window size changes are reported as records.
pub const ENABLE_WINDOW_INPUT: u32 = 0x0008;
/// Input mode flag: mouse activity is reported as records.
pub const ENABLE_MOUSE_INPUT: u32 = 0x0010;
/// Input mode flag: the mouse selects and edits text (QuickEdit).
pub const ENABLE_QUICK_EDIT_MODE: u32 = 0x0040;
/// Input mode flag: the QuickEdit and insert flags are being set.
pub const ENABLE_EXTENDED_FLAGS: u32 = 0x0080;
/// Input mode flag: keys arrive as VT sequences.
pub const ENABLE_VIRTUAL_TERMINAL_INPUT: u32 = 0x0200;
/// Output mode flag: VT sequences written are interpreted.
pub const ENABLE_VIRTUAL_TERMINAL_PROCESSING: u32 = 0x0004;

/// The raw input mode derived from `current`: no line editing, no echo,
/// no system handling of control keys, VT input on; with `events`, window
/// and mouse records are reported too (standalone raw mode needs them
/// for resize and mouse events; a single key read does not), and
/// QuickEdit is cleared (through the extended flags) so that mouse input
/// reaches the application instead of the console's selection.
pub fn raw_input_mode(current: u32, events: bool) -> (m: u32)
    ensures
        m == if events {
            (((current & !(ENABLE_ECHO_INPUT | ENABLE_LINE_INPUT | ENABLE_PROCESSED_INPUT))
                | ENABLE_VIRTUAL_TERMINAL_INPUT | ENABLE_WINDOW_INPUT | ENABLE_MOUSE_INPUT)
                & !ENABLE_QUICK_EDIT_MODE) | ENABLE_EXTENDED_FLAGS
        } else {
            (current & !(ENABLE_ECHO_INPUT | ENABLE_LINE_INPUT | ENABLE_PROCESSED_INPUT))
                | ENABLE_VIRTUAL_TERMINAL_INPUT
        },
{
    let base = (current & !(ENABLE_ECHO_INPUT | ENABLE_LINE_INPUT | ENABLE_PROCESSED_INPUT))
        | ENABLE_VIRTUAL_TERMINAL_INPUT;
    if events {
        ((base | ENABLE_WINDOW_INPUT | ENABLE_MOUSE_INPUT) & !ENABLE_QUICK_EDIT_MODE)
            | ENABLE_EXTENDED_FLAGS
    } else {
        base
    }
}

/// The output mode to set so that VT sequences are interpreted, or
/// `None` when `current` already has it.
pub fn vt_output_mode(current: u32) -> (m: Option<u32>)
    ensures
        m == if current & ENABLE_VIRTUAL_TERMINAL_PROCESSING != 0 {
            None
        } else {
            Some(current | ENABLE_VIRTUAL_TERMINAL_PROCESSING)
        },
{
    if current & ENABLE_VIRTUAL_TERMINAL_PROCESSING != 0 {
        None
    } else {
        Some(current | ENABLE_VIRTUAL_TERMINAL_PROCESSING)
    }
}

/// Mouse record flag: the wheel turned.
pub const MOUSE_WHEELED: u32 = 0x0004;
/// Mouse record flag: the pointer moved.
pub const MOUSE_MOVED: u32 = 0x0001;

/// The key kind tag of a virtual key code: Enter, Escape, Tab,
/// Backspace, Delete, the arrows, Home/End, PageUp/PageDown, Insert and
/// F1–F12; anything else is `UNKNOWN`.
pub open spec fn vk_kind(vk: u16) -> i64 {
    if vk == 0x0D {
        key_kind::ENTER
    } else if vk == 0x1B {
        key_kind::ESCAPE
    } else if vk == 0x09 {
        key_kind::TAB
    } else if vk == 0x08 {
        key_kind::BACKSPACE
    } else if vk == 0x2E {
        key_kind::DELETE
    } else if vk == 0x26 {
        key_kind::ARROW_UP
    } else if vk == 0x28 {
        key_kind::ARROW_DOWN
    } else if vk == 0x25 {
        key_kind::ARROW_LEFT
    } else if vk == 0x27 {
        key_kind::ARROW_RIGHT
    } else if vk == 0x24 {
        key_kind::HOME
    } else if vk == 0x23 {
        key_kind::END
    } else if vk == 0x21 {
        key_kind::PAGE_UP
    } else if vk == 0x22 {
        key_kind::PAGE_DOWN
    } else if vk == 0x2D {
        key_kind::INSERT
    } else if 0x70 <= vk <= 0x7B {
        (key_kind::F1 + (vk - 0x70)) as i64
    } else {
        key_kind::UNKNOWN
    }
}

/// The key kind tag of a virtual key code.
pub fn vk_to_key_kind(vk: u16) -> (k: i64)
    ensures
        k == vk_kind(vk),
{
    if vk == 0x0D {
        key_kind::ENTER
    } else if vk == 0x1B {
        key_kind::ESCAPE
    } else if vk == 0x09 {
        key_kind::TAB
    } else if vk == 0x08 {
        key_kind::BACKSPACE
    } else if vk == 0x2E {
        key_kind::DELETE
    } else if vk == 0x26 {
        key_kind::ARROW_UP
    } else if vk == 0x28 {
        key_kind::ARROW_DOWN
    } else if vk == 0x25 {
        key_kind::ARROW_LEFT
    } else if vk == 0x27 {
        key_kind::ARROW_RIGHT
    } else if vk == 0x24 {
        key_kind::HOME
    } else if vk == 0x23 {
        key_kind::END
    } else if vk == 0x21 {
        key_kind::PAGE_UP
    } else if vk == 0x22 {
        key_kind::PAGE_DOWN
    } else if vk == 0x2D {
        key_kind::INSERT
    } else if vk >= 0x70 && vk <= 0x7B {
        key_kind::F1 + ((vk - 0x70) as i64)
    } else {
        key_kind::UNKNOWN
    }
}

/// (ctrl, alt, shift) from a control-key state: either Ctrl, either Alt,
/// Shift.
pub fn decode_modifiers(ctrl_state: u32) -> (r: (bool, bool, bool))
    ensures
        r == ((ctrl_state & LEFT_CTRL_PRESSED) != 0 || (ctrl_state & RIGHT_CTRL_PRESSED) != 0, (
        ctrl_state & LEFT_ALT_PRESSED) != 0 || (ctrl_state & RIGHT_ALT_PRESSED) != 0, (ctrl_state
            & SHIFT_PRESSED) != 0),
{
    let ctrl = (ctrl_state & LEFT_CTRL_PRESSED) != 0 || (ctrl_state & RIGHT_CTRL_PRESSED) != 0;
    let alt = (ctrl_state & LEFT_ALT_PRESSED) != 0 || (ctrl_state & RIGHT_ALT_PRESSED) != 0;
    let shift = (ctrl_state & SHIFT_PRESSED) != 0;
    (ctrl, alt, shift)
}

// ── UTF-16 units ─────────────────────────────────────────────────

/// A leading (high) surrogate.
pub open spec fn is_high_surrogate(u: u16) -> bool {
    0xD800 <= u <= 0xDBFF
}

/// A trailing (low) surrogate.
pub open spec fn is_low_surrogate(u: u16) -> bool {
    0xDC00 <= u <= 0xDFFF
}

/// A Unicode scalar value: at most 0x10FFFF and no surrogate.
pub open spec fn is_scalar(v: u32) -> bool {
    v <= 0x10FFFF && !(0xD800 <= v <= 0xDFFF)
}

/// The character of one unit decoded on its own: a surrogate half alone
/// becomes U+FFFD.
pub open spec fn unit_char(u: u16) -> char {
    if is_high_surrogate(u) || is_low_surrogate(u) {
        '\u{FFFD}'
    } else {
        u as char
    }
}

/// The scalar value of a surrogate pair.
pub open spec fn pair_value(high: u16, low: u16) -> u32 {
    (0x10000 + (high - 0xD800) * 0x400 + (low - 0xDC00)) as u32
}

/// Lenient UTF-16 decoding of `prev` followed by the low surrogate
/// `low`: one character when `prev` is a high surrogate, else `prev`
/// alone and U+FFFD.
pub open spec fn pair_text(prev: u16, low: u16) -> Seq<char> {
    if is_high_surrogate(prev) {
        seq![pair_value(prev, low) as char]
    } else {
        seq![unit_char(prev), '\u{FFFD}']
    }
}

/// `char::from_u32`: the character whose scalar value is `v`, or `None`
/// when `v` is a surrogate or above 0x10FFFF. Nothing here is proved of
/// std; the claim is the documented behaviour of that function.
#[verifier::external_body]
fn char_from_u32(v: u32) -> (r: Option<char>)
    ensures
        r is Some <==> is_scalar(v),
        r matches Some(c) ==> c == v as char,
{
    char::from_u32(v)
}

/// The character for one unit decoded on its own.
fn unit_to_char(u: u16) -> (c: char)
    ensures
        c == unit_char(u),
{
    if (0xD800 <= u && u <= 0xDBFF) || (0xDC00 <= u && u <= 0xDFFF) {
        return '\u{FFFD}';
    }
    match char_from_u32(u as u32) {
        Some(c) => c,
        None => '\u{FFFD}',
    }
}

/// What one UTF-16 unit yields after the held unit `held` (see
/// `utf16_unit_to_text`); `None` while waiting for a low surrogate.
pub open spec fn unit_text(unit: u16, held: Option<u16>) -> Option<Seq<char>> {
    if is_high_surrogate(unit) {
        match held {
            Some(h) => Some(seq![unit_char(h)]),
            None => None,
        }
    } else if is_low_surrogate(unit) {
        Some(
            match held {
                Some(h) => pair_text(h, unit),
                None => seq!['\u{FFFD}'],
            },
        )
    } else {
        Some(
            match held {
                Some(h) => seq![unit_char(h), unit_char(unit)],
                None => seq![unit_char(unit)],
            },
        )
    }
}

/// Text from one UTF-16 unit of a key record, joining surrogate pairs
/// that arrive as two records. A high surrogate is held in
/// `pending_high`; a low surrogate joins the held one; an orphan half
/// becomes U+FFFD. A held half that no low surrogate follows is not
/// dropped: it surfaces as U+FFFD ahead of whatever comes next (alone,
/// when what comes next is another high surrogate, which is then held).
pub fn utf16_unit_to_text(unit: u16, pending_high: &mut Option<u16>) -> (r: Option<String>)
    ensures
        *final(pending_high) == (if is_high_surrogate(unit) {
            Some(unit)
        } else {
            None
        }),
        match unit_text(unit, *old(pending_high)) {
            Some(s) => r matches Some(t) && t@ == s,
            None => r is None,
        },
{
    let held = *pending_high;
    if 0xD800 <= unit && unit <= 0xDBFF {
        *pending_high = Some(unit);
        return match held {
            Some(h) => Some(one_char(unit_to_char(h))),
            None => None,
        };
    }
    *pending_high = None;
    let mut text = String::new();
    if 0xDC00 <= unit && unit <= 0xDFFF {
        match held {
            Some(high) => {
                if 0xD800 <= high && high <= 0xDBFF {
                    let v: u32 = 0x10000 + ((high - 0xD800) as u32) * 0x400 + ((unit - 0xDC00) as u32);
                    match char_from_u32(v) {
                        Some(c) => push_char(&mut text, c),
                        None => push_char(&mut text, '\u{FFFD}'),
                    }
                } else {
                    push_char(&mut text, unit_to_char(high));
                    push_char(&mut text, '\u{FFFD}');
                }
            },
            None => push_char(&mut text, '\u{FFFD}'),
        }
    } else {
        match held {
            Some(h) => push_char(&mut text, unit_to_char(h)),
            None => {},
        }
        push_char(&mut text, unit_to_char(unit));
    }
    Some(text)
}

// ── Records ──────────────────────────────────────────────────────

/// A key from a console key record.
#[derive(Debug)]
pub struct ConsoleKey {
    pub kind: i64,
    pub text: String,
    pub ctrl: bool,
    pub alt: bool,
    pub shift: bool,
}

/// The key of a key-down record: the kind from the virtual key; text
/// from the UTF-16 unit when the kind is `CHAR` or `UNKNOWN` and the unit
/// is not zero (a key with text and no known kind becomes `CHAR`). `None`
/// for a key-up record, or while a surrogate pair is half read.
pub fn key_record(key_down: bool, vk: u16, unit: u16, ctrl_state: u32, pending_high: &mut Option<u16>) -> (r:
    Option<ConsoleKey>)
    ensures
        !key_down ==> r is None && *final(pending_high) == *old(pending_high),
        key_down && !((vk_kind(vk) == key_kind::CHAR || vk_kind(vk) == key_kind::UNKNOWN) && unit
            != 0) ==> (r matches Some(k) && k.kind == vk_kind(vk) && k.text@.len() == 0 && (
        k.ctrl, k.alt, k.shift) == ((ctrl_state & LEFT_CTRL_PRESSED) != 0 || (ctrl_state
            & RIGHT_CTRL_PRESSED) != 0, (ctrl_state & LEFT_ALT_PRESSED) != 0 || (ctrl_state
            & RIGHT_ALT_PRESSED) != 0, (ctrl_state & SHIFT_PRESSED) != 0))
            && *final(pending_high) == *old(pending_high),
        key_down && (vk_kind(vk) == key_kind::CHAR || vk_kind(vk) == key_kind::UNKNOWN) && unit != 0
            ==> *final(pending_high) == (if is_high_surrogate(unit) {
            Some(unit)
        } else {
            None
        }) && match unit_text(unit, *old(pending_high)) {
            None => r is None,
            Some(s) => r matches Some(k) && k.kind == key_kind::CHAR && k.text@ == s && (k.ctrl,
                k.alt, k.shift) == ((ctrl_state & LEFT_CTRL_PRESSED) != 0 || (ctrl_state
                & RIGHT_CTRL_PRESSED) != 0, (ctrl_state & LEFT_ALT_PRESSED) != 0 || (ctrl_state
                & RIGHT_ALT_PRESSED) != 0, (ctrl_state & SHIFT_PRESSED) != 0),
        },
{
    if !key_down {
        return None;
    }
    let (ctrl, alt, shift) = decode_modifiers(ctrl_state);
    let kind = vk_to_key_kind(vk);
    let text = if (kind == key_kind::CHAR || kind == key_kind::UNKNOWN) && unit != 0 {
        match utf16_unit_to_text(unit, pending_high) {
            Some(t) => t,
            None => {
                return None;
            },
        }
    } else {
        String::new()
    };
    let final_kind = if kind == key_kind::UNKNOWN && !text.as_str().is_empty() {
        key_kind::CHAR
    } else {
        kind
    };
    Some(ConsoleKey { kind: final_kind, text, ctrl, alt, shift })
}

/// A mouse event from a console mouse record.
#[derive(Debug, Clone, Copy)]
pub struct ConsoleMouse {
    pub kind: MouseKind,
    pub col: i64,
    pub row: i64,
    pub button: i64,
    pub ctrl: bool,
    pub alt: bool,
    pub shift: bool,
}

/// The kind and button of a mouse record: a wheel turn scrolls up when
/// the signed high word of the button state is positive, else down; a
/// move is a drag while buttons are held; no flag at all is a press
/// while buttons are held, else a release. Other records give `None`.
pub open spec fn mouse_kind_of(flags: u32, buttons: u32) -> Option<(MouseKind, i64)> {
    if flags & MOUSE_WHEELED != 0 {
        if ((buttons >> 16u32) as i16) > 0 {
            Some((MouseKind::ScrollUp, 0))
        } else {
            Some((MouseKind::ScrollDown, 0))
        }
    } else if flags & MOUSE_MOVED != 0 {
        if buttons != 0 {
            Some((MouseKind::Drag, (buttons & 7u32) as i64))
        } else {
            Some((MouseKind::Move, 0))
        }
    } else if flags == 0 {
        if buttons != 0 {
            Some((MouseKind::Down, (buttons & 7u32) as i64))
        } else {
            Some((MouseKind::Up, 0))
        }
    } else {
        None
    }
}

/// The mouse event of a mouse record at the 0-based console position
/// (`x`, `y`), reported 1-based; `None` for records that are not a press,
/// release, move, drag or wheel turn.
pub fn mouse_record(flags: u32, buttons: u32, ctrl_state: u32, x: i16, y: i16) -> (r: Option<
    ConsoleMouse,
>)
    requires
        x < 32767,
        y < 32767,
    ensures
        match mouse_kind_of(flags, buttons) {
            None => r is None,
            Some((k, b)) => r matches Some(m) && m.kind == k && m.button == b && m.col == x + 1
                && m.row == y + 1 && (m.ctrl, m.alt, m.shift) == ((ctrl_state & LEFT_CTRL_PRESSED)
                != 0 || (ctrl_state & RIGHT_CTRL_PRESSED) != 0, (ctrl_state & LEFT_ALT_PRESSED) != 0
                || (ctrl_state & RIGHT_ALT_PRESSED) != 0, (ctrl_state & SHIFT_PRESSED) != 0),
        },
{
    let (ctrl, alt, shift) = decode_modifiers(ctrl_state);
    let (kind, button) = if flags & MOUSE_WHEELED != 0 {
        let wheel_delta = (buttons >> 16) as i16;
        if wheel_delta > 0 {
            (MouseKind::ScrollUp, 0i64)
        } else {
            (MouseKind::ScrollDown, 0i64)
        }
    } else if flags & MOUSE_MOVED != 0 {
        if buttons != 0 {
            (MouseKind::Drag, (buttons & 7) as i64)
        } else {
            (MouseKind::Move, 0i64)
        }
    } else if flags == 0 {
        if buttons != 0 {
            (MouseKind::Down, (buttons & 7) as i64)
        } else {
            (MouseKind::Up, 0i64)
        }
    } else {
        return None;
    };
    let col = (x + 1) as i64;
    let row = (y + 1) as i64;
    Some(ConsoleMouse { kind, col, row, button, ctrl, alt, shift })
}

} // verus!
