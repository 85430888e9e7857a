//! The result packs of the input entries: a key pack for `readKey`, and
//! for `readEvent` a pack of the event kind and three sub-packs (key,
//! mouse, resize) of which the one that does not describe the event
//! holds defaults.

use vstd::prelude::*;

use crate::event::{DecodedEvent, DecodedMouse, DecodedResize, EventView, MouseKind};
use crate::host::{bool_of, int_of, names_are, str_of, HostField, HostValue};
use crate::key::{key_tag, DecodedKey, KeyKind};

verus! {

/// Field names of a key pack, in order.
pub open spec fn key_names() -> Seq<Seq<char>> {
    seq!["kind"@, "text"@, "ctrl"@, "alt"@, "shift"@]
}

/// Field names of a mouse pack, in order.
pub open spec fn mouse_names() -> Seq<Seq<char>> {
    seq!["kind"@, "col"@, "row"@, "button"@, "ctrl"@, "alt"@, "shift"@]
}

/// Field names of a size pack, in order.
pub open spec fn size_names() -> Seq<Seq<char>> {
    seq!["cols"@, "rows"@]
}

/// Field names of an event pack, in order.
pub open spec fn event_names() -> Seq<Seq<char>> {
    seq!["kind"@, "key"@, "mouse"@, "resize"@]
}

/// The frozen tag of a mouse kind.
pub open spec fn mouse_tag(k: MouseKind) -> i64 {
    match k {
        MouseKind::Down => 0,
        MouseKind::Up => 1,
        MouseKind::Move => 2,
        MouseKind::Drag => 3,
        MouseKind::ScrollUp => 4,
        MouseKind::ScrollDown => 5,
    }
}

/// `v` is a key pack with these fields.
pub open spec fn is_key_value(v: HostValue, kind: i64, text: Seq<char>, ctrl: bool, alt: bool, shift: bool) -> bool {
    match v {
        HostValue::Pack(fs) => {
            &&& names_are(fs@, key_names())
            &&& int_of(fs@[0].value) == Some(kind)
            &&& str_of(fs@[1].value) == Some(text)
            &&& bool_of(fs@[2].value) == Some(ctrl)
            &&& bool_of(fs@[3].value) == Some(alt)
            &&& bool_of(fs@[4].value) == Some(shift)
        },
        _ => false,
    }
}

/// `v` is a mouse pack with these fields.
pub open spec fn is_mouse_value(
    v: HostValue,
    kind: i64,
    col: i64,
    row: i64,
    button: i64,
    ctrl: bool,
    alt: bool,
    shift: bool,
) -> bool {
    match v {
        HostValue::Pack(fs) => {
            &&& names_are(fs@, mouse_names())
            &&& int_of(fs@[0].value) == Some(kind)
            &&& int_of(fs@[1].value) == Some(col)
            &&& int_of(fs@[2].value) == Some(row)
            &&& int_of(fs@[3].value) == Some(button)
            &&& bool_of(fs@[4].value) == Some(ctrl)
            &&& bool_of(fs@[5].value) == Some(alt)
            &&& bool_of(fs@[6].value) == Some(shift)
        },
        _ => false,
    }
}

/// `v` is a size pack of `cols` × `rows`.
pub open spec fn is_size_value(v: HostValue, cols: i64, rows: i64) -> bool {
    match v {
        HostValue::Pack(fs) => {
            &&& names_are(fs@, size_names())
            &&& int_of(fs@[0].value) == Some(cols)
            &&& int_of(fs@[1].value) == Some(rows)
        },
        _ => false,
    }
}

/// The key sub-pack of an event that is no key: kind `Unknown`, no text.
pub open spec fn is_default_key(v: HostValue) -> bool {
    is_key_value(v, key_tag(KeyKind::Unknown), Seq::empty(), false, false, false)
}

/// The mouse sub-pack of an event that is no mouse event: a move at
/// (0, 0).
pub open spec fn is_default_mouse(v: HostValue) -> bool {
    is_mouse_value(v, mouse_tag(MouseKind::Move), 0, 0, 0, false, false, false)
}

/// The resize sub-pack of an event that is no resize: 0 × 0.
pub open spec fn is_default_resize(v: HostValue) -> bool {
    is_size_value(v, 0, 0)
}

/// `v` is the event pack of `e`. An unknown sequence travels as the text
/// of an `Unknown` key.
pub open spec fn is_event_value(v: HostValue, e: EventView) -> bool {
    match v {
        HostValue::Pack(fs) => {
            &&& names_are(fs@, event_names())
            &&& match e {
                EventView::Key(k) => {
                    &&& int_of(fs@[0].value) == Some(0i64)
                    &&& is_key_value(fs@[1].value, key_tag(k.kind), k.text, k.ctrl, k.alt, k.shift)
                    &&& is_default_mouse(fs@[2].value)
                    &&& is_default_resize(fs@[3].value)
                },
                EventView::Mouse(m) => {
                    &&& int_of(fs@[0].value) == Some(1i64)
                    &&& is_default_key(fs@[1].value)
                    &&& is_mouse_value(
                        fs@[2].value,
                        mouse_tag(m.kind),
                        m.col,
                        m.row,
                        m.button,
                        m.ctrl,
                        m.alt,
                        m.shift,
                    )
                    &&& is_default_resize(fs@[3].value)
                },
                EventView::Resize(r) => {
                    &&& int_of(fs@[0].value) == Some(2i64)
                    &&& is_default_key(fs@[1].value)
                    &&& is_default_mouse(fs@[2].value)
                    &&& is_size_value(fs@[3].value, r.cols, r.rows)
                },
                EventView::Unknown(raw) => {
                    &&& int_of(fs@[0].value) == Some(3i64)
                    &&& is_key_value(fs@[1].value, key_tag(KeyKind::Unknown), raw, false, false, false)
                    &&& is_default_mouse(fs@[2].value)
                    &&& is_default_resize(fs@[3].value)
                },
            }
        },
        _ => false,
    }
}

fn field(name: &str, value: HostValue) -> (f: HostField)
    ensures
        f.name@ == name@,
        f.value == value,
{
    HostField { name: String::from_str(name), value }
}

/// A key pack: kind tag, text, then the modifiers.
pub fn build_key_subpack(kind: i64, text: &str, ctrl: bool, alt: bool, shift: bool) -> (v: HostValue)
    ensures
        is_key_value(v, kind, text@, ctrl, alt, shift),
{
    let mut fs: Vec<HostField> = Vec::new();
    fs.push(field("kind", HostValue::Int(kind)));
    fs.push(field("text", HostValue::Str(String::from_str(text))));
    fs.push(field("ctrl", HostValue::Bool(ctrl)));
    fs.push(field("alt", HostValue::Bool(alt)));
    fs.push(field("shift", HostValue::Bool(shift)));
    proof {
        assert(names_are(fs@, key_names())) by {
            assert forall|i: int| 0 <= i < fs@.len() implies #[trigger] fs@[i].name@ == key_names()[i] by {
                if i == 0 {} else if i == 1 {} else if i == 2 {} else if i == 3 {} else {}
            }
        }
    }
    HostValue::Pack(fs)
}

/// The key pack of a decoded key.
pub fn build_key_pack(key: &DecodedKey) -> (v: HostValue)
    ensures
        is_key_value(v, key_tag(key.kind), key.text@, key.ctrl, key.alt, key.shift),
{
    build_key_subpack(key.kind.tag(), key.text.as_str(), key.ctrl, key.alt, key.shift)
}

/// A mouse pack: kind tag, position, button, then the modifiers.
pub fn build_mouse_subpack(
    kind: i64,
    col: i64,
    row: i64,
    button: i64,
    ctrl: bool,
    alt: bool,
    shift: bool,
) -> (v: HostValue)
    ensures
        is_mouse_value(v, kind, col, row, button, ctrl, alt, shift),
{
    let mut fs: Vec<HostField> = Vec::new();
    fs.push(field("kind", HostValue::Int(kind)));
    fs.push(field("col", HostValue::Int(col)));
    fs.push(field("row", HostValue::Int(row)));
    fs.push(field("button", HostValue::Int(button)));
    fs.push(field("ctrl", HostValue::Bool(ctrl)));
    fs.push(field("alt", HostValue::Bool(alt)));
    fs.push(field("shift", HostValue::Bool(shift)));
    proof {
        assert(names_are(fs@, mouse_names())) by {
            assert forall|i: int| 0 <= i < fs@.len() implies #[trigger] fs@[i].name@ == mouse_names()[i] by {
                if i == 0 {} else if i == 1 {} else if i == 2 {} else if i == 3 {} else if i == 4 {} else if i == 5 {} else {}
            }
        }
    }
    HostValue::Pack(fs)
}

/// A size pack of `cols` × `rows`.
pub fn build_size_pack(cols: i64, rows: i64) -> (v: HostValue)
    ensures
        is_size_value(v, cols, rows),
{
    let mut fs: Vec<HostField> = Vec::new();
    fs.push(field("cols", HostValue::Int(cols)));
    fs.push(field("rows", HostValue::Int(rows)));
    proof {
        assert(names_are(fs@, size_names())) by {
            assert forall|i: int| 0 <= i < fs@.len() implies #[trigger] fs@[i].name@ == size_names()[i] by {
                if i == 0 {} else {}
            }
        }
    }
    HostValue::Pack(fs)
}

/// The key sub-pack of an event that is no key.
pub fn build_default_key_subpack() -> (v: HostValue)
    ensures
        is_default_key(v),
{
    let k = KeyKind::Unknown;
    let empty = String::new();
    build_key_subpack(k.tag(), empty.as_str(), false, false, false)
}

/// The mouse sub-pack of an event that is no mouse event.
pub fn build_default_mouse_subpack() -> (v: HostValue)
    ensures
        is_default_mouse(v),
{
    build_mouse_subpack(MouseKind::Move.tag(), 0, 0, 0, false, false, false)
}

/// The resize sub-pack of an event that is no resize.
pub fn build_default_resize_subpack() -> (v: HostValue)
    ensures
        is_default_resize(v),
{
    build_size_pack(0, 0)
}

/// An event pack from its kind tag and its three sub-packs.
pub fn build_event_parts(kind: i64, key: HostValue, mouse: HostValue, resize: HostValue) -> (v:
    HostValue)
    ensures
        v matches HostValue::Pack(fs) && names_are(fs@, event_names()) && int_of(fs@[0].value) == Some(
            kind,
        ) && fs@[1].value == key && fs@[2].value == mouse && fs@[3].value == resize,
{
    let mut fs: Vec<HostField> = Vec::new();
    fs.push(field("kind", HostValue::Int(kind)));
    fs.push(field("key", key));
    fs.push(field("mouse", mouse));
    fs.push(field("resize", resize));
    proof {
        assert(names_are(fs@, event_names())) by {
            assert forall|i: int| 0 <= i < fs@.len() implies #[trigger] fs@[i].name@ == event_names()[i] by {
                if i == 0 {} else if i == 1 {} else if i == 2 {} else {}
            }
        }
    }
    HostValue::Pack(fs)
}

fn mouse_pack_of(m: &DecodedMouse) -> (v: HostValue)
    ensures
        is_mouse_value(v, mouse_tag(m.kind), m.col, m.row, m.button, m.ctrl, m.alt, m.shift),
{
    build_mouse_subpack(m.kind.tag(), m.col, m.row, m.button, m.ctrl, m.alt, m.shift)
}

fn resize_pack_of(r: &DecodedResize) -> (v: HostValue)
    ensures
        is_size_value(v, r.cols, r.rows),
{
    build_size_pack(r.cols, r.rows)
}

/// The event pack of a decoded event.
pub fn build_event_pack(event: &DecodedEvent) -> (v: HostValue)
    ensures
        is_event_value(v, event@),
{
    match event {
        DecodedEvent::Key(k) => build_event_parts(
            0,
            build_key_pack(k),
            build_default_mouse_subpack(),
            build_default_resize_subpack(),
        ),
        DecodedEvent::Mouse(m) => build_event_parts(
            1,
            build_default_key_subpack(),
            mouse_pack_of(m),
            build_default_resize_subpack(),
        ),
        DecodedEvent::Resize(r) => build_event_parts(
            2,
            build_default_key_subpack(),
            build_default_mouse_subpack(),
            resize_pack_of(r),
        ),
        DecodedEvent::Unknown(raw) => {
            let k = KeyKind::Unknown;
            build_event_parts(
                3,
                build_key_subpack(k.tag(), raw.as_str(), false, false, false),
                build_default_mouse_subpack(),
                build_default_resize_subpack(),
            )
        },
    }
}

} // verus!
