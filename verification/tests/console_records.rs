use taida_lang_terminal::console::{
    key_kind, key_record, mouse_record, raw_input_mode, utf16_unit_to_text, vt_output_mode,
    LEFT_ALT_PRESSED, LEFT_CTRL_PRESSED, MOUSE_MOVED, MOUSE_WHEELED, SHIFT_PRESSED,
};
use taida_lang_terminal::event::MouseKind;

#[test]
fn bmp_unit_becomes_its_character() {
    let mut held = None;
    assert_eq!(utf16_unit_to_text(0x0041, &mut held).as_deref(), Some("A"));
    assert_eq!(utf16_unit_to_text(0x00E9, &mut held).as_deref(), Some("é"));
    assert_eq!(held, None);
}

#[test]
fn surrogate_pair_across_two_records_joins() {
    let mut held = None;
    // U+1F600 is D83D DE00.
    assert_eq!(utf16_unit_to_text(0xD83D, &mut held), None);
    assert_eq!(held, Some(0xD83D));
    assert_eq!(utf16_unit_to_text(0xDE00, &mut held).as_deref(), Some("\u{1F600}"));
    assert_eq!(held, None);
}

#[test]
fn orphan_low_surrogate_is_replaced() {
    let mut held = None;
    assert_eq!(utf16_unit_to_text(0xDC00, &mut held).as_deref(), Some("\u{FFFD}"));
}

#[test]
fn orphan_high_surrogate_surfaces_as_replacement() {
    let mut held = None;
    assert_eq!(utf16_unit_to_text(0xD83D, &mut held), None);
    assert_eq!(held, Some(0xD83D));
    assert_eq!(utf16_unit_to_text(0x0041, &mut held).as_deref(), Some("\u{FFFD}A"));
    assert_eq!(held, None);
}

#[test]
fn high_surrogate_after_high_surrogate_reports_the_first() {
    let mut held = None;
    assert_eq!(utf16_unit_to_text(0xD83D, &mut held), None);
    assert_eq!(utf16_unit_to_text(0xD83D, &mut held).as_deref(), Some("\u{FFFD}"));
    assert_eq!(held, Some(0xD83D));
    assert_eq!(utf16_unit_to_text(0xDE00, &mut held).as_deref(), Some("\u{1F600}"));
}

#[test]
fn key_up_records_are_ignored() {
    let mut held = None;
    assert!(key_record(false, 0x41, 0x61, 0, &mut held).is_none());
}

#[test]
fn char_key_record_with_modifiers() {
    let mut held = None;
    let k = key_record(true, 0x41, 0x61, LEFT_CTRL_PRESSED | SHIFT_PRESSED, &mut held).unwrap();
    assert_eq!(k.kind, key_kind::CHAR);
    assert_eq!(k.text, "a");
    assert!(k.ctrl && !k.alt && k.shift);
}

#[test]
fn special_key_record_has_no_text() {
    let mut held = None;
    let k = key_record(true, 0x26, 0, LEFT_ALT_PRESSED, &mut held).unwrap();
    assert_eq!(k.kind, key_kind::ARROW_UP);
    assert_eq!(k.text, "");
    assert!(!k.ctrl && k.alt && !k.shift);
    let k = key_record(true, 0x0D, 0x0D, 0, &mut held).unwrap();
    assert_eq!(k.kind, key_kind::ENTER);
    assert_eq!(k.text, "");
}

#[test]
fn unknown_key_with_text_becomes_char() {
    let mut held = None;
    // VK_OEM_1 (0xBA) carries ';' on a US layout.
    let k = key_record(true, 0xBA, 0x3B, 0, &mut held).unwrap();
    assert_eq!(k.kind, key_kind::CHAR);
    assert_eq!(k.text, ";");
    let k = key_record(true, 0xBA, 0, 0, &mut held).unwrap();
    assert_eq!(k.kind, key_kind::UNKNOWN);
}

#[test]
fn emoji_key_records_join_across_records() {
    let mut held = None;
    assert!(key_record(true, 0, 0xD83D, 0, &mut held).is_none());
    let k = key_record(true, 0, 0xDE00, 0, &mut held).unwrap();
    assert_eq!(k.kind, key_kind::CHAR);
    assert_eq!(k.text, "\u{1F600}");
}

#[test]
fn mouse_press_release_and_position() {
    let m = mouse_record(0, 1, 0, 0, 0).unwrap();
    assert_eq!(m.kind, MouseKind::Down);
    assert_eq!((m.col, m.row, m.button), (1, 1, 1));
    let m = mouse_record(0, 0, 0, 9, 4).unwrap();
    assert_eq!(m.kind, MouseKind::Up);
    assert_eq!((m.col, m.row, m.button), (10, 5, 0));
}

#[test]
fn mouse_move_and_drag() {
    let m = mouse_record(MOUSE_MOVED, 0, 0, 2, 3).unwrap();
    assert_eq!(m.kind, MouseKind::Move);
    let m = mouse_record(MOUSE_MOVED, 2, SHIFT_PRESSED, 2, 3).unwrap();
    assert_eq!(m.kind, MouseKind::Drag);
    assert_eq!(m.button, 2);
    assert!(m.shift);
}

#[test]
fn mouse_wheel_direction_from_high_word() {
    let up = mouse_record(MOUSE_WHEELED, 120u32 << 16, 0, 0, 0).unwrap();
    assert_eq!(up.kind, MouseKind::ScrollUp);
    let down = mouse_record(MOUSE_WHEELED, 0xFF88u32 << 16, 0, 0, 0).unwrap();
    assert_eq!(down.kind, MouseKind::ScrollDown);
}

#[test]
fn other_mouse_records_are_skipped() {
    // DOUBLE_CLICK (0x0002) is neither press, move nor wheel.
    assert!(mouse_record(0x0002, 1, 0, 0, 0).is_none());
}

#[test]
fn raw_input_mode_clears_line_editing_and_adds_vt() {
    // A typical cooked console: processed, line, echo, insert (0x20), quick edit (0x40).
    let cooked = 0x0001 | 0x0002 | 0x0004 | 0x0020 | 0x0040;
    assert_eq!(raw_input_mode(cooked, false), 0x0020 | 0x0040 | 0x0200);
    // With events, QuickEdit goes and the extended flags are set.
    assert_eq!(raw_input_mode(cooked, true), 0x0020 | 0x0080 | 0x0200 | 0x0008 | 0x0010);
}

#[test]
fn vt_output_mode_only_when_missing() {
    assert_eq!(vt_output_mode(0x0003), Some(0x0007));
    assert_eq!(vt_output_mode(0x0007), None);
}
