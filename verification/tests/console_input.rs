use taida_lang_terminal::console::{
    decode_modifiers, event_kind, key_kind, mouse_kind, vk_to_key_kind, VtModeStatus,
    LEFT_CTRL_PRESSED, RIGHT_ALT_PRESSED, SHIFT_PRESSED,
};
use taida_lang_terminal::event::err as event_err;
use taida_lang_terminal::key::err as key_err;
use taida_lang_terminal::raw_mode::err as raw_err;
use taida_lang_terminal::size::err as size_err;
use taida_lang_terminal::tty::err as tty_err;
use taida_lang_terminal::tty::{parse_stream_kind, StreamKind};

#[test]
fn vk_to_key_kind_maps_special_keys() {
    assert_eq!(vk_to_key_kind(0x0D), key_kind::ENTER);
    assert_eq!(vk_to_key_kind(0x1B), key_kind::ESCAPE);
    assert_eq!(vk_to_key_kind(0x09), key_kind::TAB);
    assert_eq!(vk_to_key_kind(0x08), key_kind::BACKSPACE);
    assert_eq!(vk_to_key_kind(0x2E), key_kind::DELETE);
}

#[test]
fn vk_to_key_kind_maps_arrows() {
    assert_eq!(vk_to_key_kind(0x26), key_kind::ARROW_UP);
    assert_eq!(vk_to_key_kind(0x28), key_kind::ARROW_DOWN);
    assert_eq!(vk_to_key_kind(0x25), key_kind::ARROW_LEFT);
    assert_eq!(vk_to_key_kind(0x27), key_kind::ARROW_RIGHT);
}

#[test]
fn vk_to_key_kind_maps_navigation() {
    assert_eq!(vk_to_key_kind(0x24), key_kind::HOME);
    assert_eq!(vk_to_key_kind(0x23), key_kind::END);
    assert_eq!(vk_to_key_kind(0x21), key_kind::PAGE_UP);
    assert_eq!(vk_to_key_kind(0x22), key_kind::PAGE_DOWN);
    assert_eq!(vk_to_key_kind(0x2D), key_kind::INSERT);
}

#[test]
fn vk_to_key_kind_maps_f_keys() {
    for i in 0u16..12 {
        assert_eq!(
            vk_to_key_kind(0x70 + i),
            key_kind::F1 + i as i64,
            "F{} mismatch",
            i + 1
        );
    }
}

#[test]
fn vk_to_key_kind_unknown_for_unrecognized() {
    assert_eq!(vk_to_key_kind(0x00), key_kind::UNKNOWN);
    assert_eq!(vk_to_key_kind(0xFF), key_kind::UNKNOWN);
}

#[test]
fn parse_stream_kind_valid_and_invalid() {
    assert_eq!(parse_stream_kind("stdin"), Some(StreamKind::Stdin));
    assert_eq!(parse_stream_kind("stdout"), Some(StreamKind::Stdout));
    assert_eq!(parse_stream_kind("stderr"), Some(StreamKind::Stderr));
    assert_eq!(parse_stream_kind("STDIN"), None);
    assert_eq!(parse_stream_kind(""), None);
}

#[test]
fn key_kind_constants_match_terminal_td() {
    assert_eq!(key_kind::CHAR, 0);
    assert_eq!(key_kind::ENTER, 1);
    assert_eq!(key_kind::ESCAPE, 2);
    assert_eq!(key_kind::TAB, 3);
    assert_eq!(key_kind::BACKSPACE, 4);
    assert_eq!(key_kind::DELETE, 5);
    assert_eq!(key_kind::ARROW_UP, 6);
    assert_eq!(key_kind::ARROW_DOWN, 7);
    assert_eq!(key_kind::ARROW_LEFT, 8);
    assert_eq!(key_kind::ARROW_RIGHT, 9);
    assert_eq!(key_kind::HOME, 10);
    assert_eq!(key_kind::END, 11);
    assert_eq!(key_kind::PAGE_UP, 12);
    assert_eq!(key_kind::PAGE_DOWN, 13);
    assert_eq!(key_kind::INSERT, 14);
    assert_eq!(key_kind::UNKNOWN, 27);
}

#[test]
fn event_kind_constants_match() {
    assert_eq!(event_kind::KEY, 0);
    assert_eq!(event_kind::MOUSE, 1);
    assert_eq!(event_kind::RESIZE, 2);
}

#[test]
fn mouse_kind_constants_match() {
    assert_eq!(mouse_kind::DOWN, 0);
    assert_eq!(mouse_kind::UP, 1);
    assert_eq!(mouse_kind::MOVE, 2);
    assert_eq!(mouse_kind::DRAG, 3);
    assert_eq!(mouse_kind::SCROLL_UP, 4);
    assert_eq!(mouse_kind::SCROLL_DOWN, 5);
}

#[test]
fn error_codes_match_unix() {
    assert_eq!(tty_err::IS_TERMINAL_INVALID_STREAM, 2101);
    assert_eq!(size_err::TERMINAL_SIZE_NOT_A_TTY, 2001);
    assert_eq!(size_err::TERMINAL_SIZE_IOCTL, 2002);
    assert_eq!(raw_err::RAW_MODE_NOT_A_TTY, 3001);
    assert_eq!(raw_err::RAW_MODE_ALREADY_ACTIVE, 3002);
    assert_eq!(raw_err::RAW_MODE_NOT_ACTIVE, 3003);
    assert_eq!(raw_err::RAW_MODE_ENTER_FAILED, 3004);
    assert_eq!(raw_err::RAW_MODE_LEAVE_FAILED, 3005);
    assert_eq!(key_err::READ_KEY_NOT_A_TTY, 1001);
    assert_eq!(event_err::READ_EVENT_NOT_IN_RAW_MODE, 4001);
}

#[test]
fn read_key_unsupported_error_code_is_frozen() {
    assert_eq!(taida_lang_terminal::console::err::READ_KEY_UNSUPPORTED, 1007);
}

#[test]
fn vt_mode_status_variants_exist() {
    let _enabled = VtModeStatus::Enabled;
    let _failed = VtModeStatus::Failed;
    assert_ne!(VtModeStatus::Enabled, VtModeStatus::Failed);
}

#[test]
fn decode_modifiers_parses_flags() {
    let (ctrl, alt, shift) = decode_modifiers(LEFT_CTRL_PRESSED | SHIFT_PRESSED);
    assert!(ctrl);
    assert!(!alt);
    assert!(shift);

    let (ctrl, alt, shift) = decode_modifiers(RIGHT_ALT_PRESSED);
    assert!(!ctrl);
    assert!(alt);
    assert!(!shift);

    let (ctrl, alt, shift) = decode_modifiers(0);
    assert!(!ctrl);
    assert!(!alt);
    assert!(!shift);
}
