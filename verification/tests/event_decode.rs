use taida_lang_terminal::event::err;
use taida_lang_terminal::event::reader::{EventReadOutcome, PendingBytes};
use taida_lang_terminal::event::{
    decode_one_event, decode_sgr_mouse, find_csi_end, find_sgr_mouse_end, DecodedEvent, EventKind,
    MouseKind,
};
use taida_lang_terminal::key::KeyKind;

#[test]
fn event_kind_tags_are_frozen() {
    assert_eq!(EventKind::Key as u32, 0);
    assert_eq!(EventKind::Mouse as u32, 1);
    assert_eq!(EventKind::Resize as u32, 2);
    assert_eq!(EventKind::Unknown as u32, 3);
}

#[test]
fn mouse_kind_tags_are_frozen() {
    assert_eq!(MouseKind::Down as u32, 0);
    assert_eq!(MouseKind::Up as u32, 1);
    assert_eq!(MouseKind::Move as u32, 2);
    assert_eq!(MouseKind::Drag as u32, 3);
    assert_eq!(MouseKind::ScrollUp as u32, 4);
    assert_eq!(MouseKind::ScrollDown as u32, 5);
}

#[test]
fn event_error_codes_are_frozen() {
    assert_eq!(err::READ_EVENT_NOT_IN_RAW_MODE, 4001);
    assert_eq!(err::READ_EVENT_NOT_A_TTY, 4002);
    assert_eq!(err::READ_EVENT_READ_FAILED, 4003);
    assert_eq!(err::READ_EVENT_EOF, 4004);
    assert_eq!(err::READ_EVENT_INTERRUPTED, 4005);
    assert_eq!(err::READ_EVENT_PANIC, 4006);
    assert_eq!(err::READ_EVENT_RESIZE_INIT_FAILED, 4007);
}

#[test]
fn event_error_codes_in_4xxx_range() {
    const _: () = assert!(err::READ_EVENT_NOT_IN_RAW_MODE >= 4000);
    const _: () = assert!(err::READ_EVENT_RESIZE_INIT_FAILED >= 4000);
}

#[test]
fn decode_sgr_mouse_left_press() {
    let buf = b"\x1b[<0;10;20M";
    let m = decode_sgr_mouse(buf).expect("should decode left press");
    assert_eq!(m.kind, MouseKind::Down);
    assert_eq!(m.col, 10);
    assert_eq!(m.row, 20);
    assert_eq!(m.button, 0);
    assert!(!m.ctrl && !m.alt && !m.shift);
}

#[test]
fn decode_sgr_mouse_left_release() {
    let buf = b"\x1b[<0;10;20m";
    let m = decode_sgr_mouse(buf).expect("should decode left release");
    assert_eq!(m.kind, MouseKind::Up);
    assert_eq!(m.col, 10);
    assert_eq!(m.row, 20);
    assert_eq!(m.button, 0);
}

#[test]
fn decode_sgr_mouse_right_press() {
    let buf = b"\x1b[<2;5;3M";
    let m = decode_sgr_mouse(buf).expect("should decode right press");
    assert_eq!(m.kind, MouseKind::Down);
    assert_eq!(m.button, 2);
    assert_eq!(m.col, 5);
    assert_eq!(m.row, 3);
}

#[test]
fn decode_sgr_mouse_middle_press() {
    let buf = b"\x1b[<1;15;10M";
    let m = decode_sgr_mouse(buf).expect("should decode middle press");
    assert_eq!(m.kind, MouseKind::Down);
    assert_eq!(m.button, 1);
}

#[test]
fn decode_sgr_mouse_scroll_up() {
    let buf = b"\x1b[<64;1;1M";
    let m = decode_sgr_mouse(buf).expect("should decode scroll up");
    assert_eq!(m.kind, MouseKind::ScrollUp);
}

#[test]
fn decode_sgr_mouse_scroll_down() {
    let buf = b"\x1b[<65;1;1M";
    let m = decode_sgr_mouse(buf).expect("should decode scroll down");
    assert_eq!(m.kind, MouseKind::ScrollDown);
}

#[test]
fn decode_sgr_mouse_drag() {
    let buf = b"\x1b[<32;12;8M";
    let m = decode_sgr_mouse(buf).expect("should decode drag");
    assert_eq!(m.kind, MouseKind::Drag);
    assert_eq!(m.col, 12);
    assert_eq!(m.row, 8);
    assert_eq!(m.button, 0);
}

#[test]
fn decode_sgr_mouse_with_ctrl() {
    let buf = b"\x1b[<16;5;5M";
    let m = decode_sgr_mouse(buf).expect("should decode ctrl+click");
    assert_eq!(m.kind, MouseKind::Down);
    assert!(m.ctrl);
    assert!(!m.alt && !m.shift);
}

#[test]
fn decode_sgr_mouse_with_shift() {
    let buf = b"\x1b[<4;5;5M";
    let m = decode_sgr_mouse(buf).expect("should decode shift+click");
    assert_eq!(m.kind, MouseKind::Down);
    assert!(m.shift);
    assert!(!m.ctrl && !m.alt);
}

#[test]
fn decode_sgr_mouse_with_alt() {
    let buf = b"\x1b[<8;5;5M";
    let m = decode_sgr_mouse(buf).expect("should decode alt+click");
    assert_eq!(m.kind, MouseKind::Down);
    assert!(m.alt);
    assert!(!m.ctrl && !m.shift);
}

#[test]
fn decode_sgr_mouse_with_all_modifiers() {
    let buf = b"\x1b[<28;1;1M";
    let m = decode_sgr_mouse(buf).expect("should decode all modifiers");
    assert!(m.ctrl && m.alt && m.shift);
}

#[test]
fn decode_sgr_mouse_rejects_too_short() {
    assert!(decode_sgr_mouse(b"\x1b[<0;1;1").is_none());
    assert!(decode_sgr_mouse(b"\x1b[<").is_none());
    assert!(decode_sgr_mouse(b"").is_none());
}

#[test]
fn decode_sgr_mouse_rejects_wrong_prefix() {
    assert!(decode_sgr_mouse(b"\x1b[0;10;20M").is_none());
}

#[test]
fn decode_sgr_mouse_rejects_wrong_final_byte() {
    assert!(decode_sgr_mouse(b"\x1b[<0;10;20X").is_none());
}

#[test]
fn decode_sgr_mouse_large_coordinates() {
    let buf = b"\x1b[<0;300;100M";
    let m = decode_sgr_mouse(buf).expect("should handle large coords");
    assert_eq!(m.col, 300);
    assert_eq!(m.row, 100);
}

#[test]
fn event_read_outcome_resize_init_failed_exists() {
    let outcome = EventReadOutcome::ResizeInitFailed;
    assert!(
        matches!(outcome, EventReadOutcome::ResizeInitFailed),
        "ResizeInitFailed variant must exist"
    );
}

#[test]
fn framing_single_printable_char() {
    let data = b"a";
    let (consumed, event) = decode_one_event(data);
    assert_eq!(consumed, 1);
    match event {
        DecodedEvent::Key(dk) => {
            assert_eq!(dk.kind, KeyKind::Char);
            assert_eq!(dk.text, "a");
        }
        _ => panic!("expected Key event"),
    }
}

#[test]
fn framing_two_printable_chars_consumes_only_first() {
    let data = b"ab";
    let (consumed, event) = decode_one_event(data);
    assert_eq!(consumed, 1, "must consume exactly 1 byte for 'a'");
    match event {
        DecodedEvent::Key(dk) => {
            assert_eq!(dk.text, "a");
        }
        _ => panic!("expected Key event"),
    }
}

#[test]
fn framing_lone_esc() {
    let data = b"\x1b";
    let (consumed, event) = decode_one_event(data);
    assert_eq!(consumed, 1);
    match event {
        DecodedEvent::Key(dk) => {
            assert_eq!(dk.kind, KeyKind::Escape);
        }
        _ => panic!("expected Key event"),
    }
}

#[test]
fn framing_esc_bracket_a_arrow_up() {
    let data = b"\x1b[A";
    let (consumed, event) = decode_one_event(data);
    assert_eq!(consumed, 3);
    match event {
        DecodedEvent::Key(dk) => {
            assert_eq!(dk.kind, KeyKind::ArrowUp);
        }
        _ => panic!("expected Key event"),
    }
}

#[test]
fn framing_arrow_up_followed_by_char() {
    let data = b"\x1b[Ax";
    let (consumed, _event) = decode_one_event(data);
    assert_eq!(consumed, 3, "must consume only the 3-byte arrow sequence");
}

#[test]
fn framing_sgr_mouse_event() {
    let data = b"\x1b[<0;10;20M";
    let (consumed, event) = decode_one_event(data);
    assert_eq!(consumed, data.len());
    match event {
        DecodedEvent::Mouse(m) => {
            assert_eq!(m.kind, MouseKind::Down);
            assert_eq!(m.col, 10);
            assert_eq!(m.row, 20);
        }
        _ => panic!("expected Mouse event"),
    }
}

#[test]
fn framing_sgr_mouse_followed_by_key() {
    let data = b"\x1b[<0;5;5Ma";
    let (consumed, event) = decode_one_event(data);
    assert_eq!(consumed, data.len() - 1, "must consume only mouse event");
    assert!(matches!(event, DecodedEvent::Mouse(_)));
}

#[test]
fn framing_two_sgr_mouse_events() {
    let press = b"\x1b[<0;1;1M";
    let release = b"\x1b[<0;1;1m";
    let mut combined = Vec::new();
    combined.extend_from_slice(press);
    combined.extend_from_slice(release);

    let (consumed1, ev1) = decode_one_event(&combined);
    assert_eq!(
        consumed1,
        press.len(),
        "first event must consume only press"
    );
    assert!(matches!(ev1, DecodedEvent::Mouse(_)));

    let (consumed2, ev2) = decode_one_event(&combined[consumed1..]);
    assert_eq!(consumed2, release.len());
    match ev2 {
        DecodedEvent::Mouse(m) => assert_eq!(m.kind, MouseKind::Up),
        _ => panic!("expected Mouse Up event"),
    }
}

#[test]
fn framing_alt_key() {
    let data = b"\x1ba";
    let (consumed, event) = decode_one_event(data);
    assert_eq!(consumed, 2);
    match event {
        DecodedEvent::Key(dk) => {
            assert!(dk.alt);
            assert_eq!(dk.text, "a");
        }
        _ => panic!("expected Key event"),
    }
}

#[test]
fn framing_alt_key_followed_by_char() {
    let data = b"\x1bab";
    let (consumed, _) = decode_one_event(data);
    assert_eq!(consumed, 2, "must consume only the 2-byte Alt+a sequence");
}

#[test]
fn framing_utf8_multibyte() {
    let data = b"\xe3\x81\x82";
    let (consumed, event) = decode_one_event(data);
    assert_eq!(consumed, 3);
    match event {
        DecodedEvent::Key(dk) => {
            assert_eq!(dk.kind, KeyKind::Char);
        }
        _ => panic!("expected Key event"),
    }
}

#[test]
fn framing_utf8_followed_by_ascii() {
    let data = b"\xe3\x81\x82a";
    let (consumed, _) = decode_one_event(data);
    assert_eq!(consumed, 3, "must consume only the 3-byte UTF-8 char");
}

#[test]
fn framing_ss3_f1_key() {
    let data = b"\x1bOP";
    let (consumed, event) = decode_one_event(data);
    assert_eq!(consumed, 3);
    match event {
        DecodedEvent::Key(dk) => {
            assert_eq!(dk.kind, KeyKind::F1);
        }
        _ => panic!("expected Key event"),
    }
}

#[test]
fn framing_csi_tilde_key() {
    let data = b"\x1b[5~";
    let (consumed, event) = decode_one_event(data);
    assert_eq!(consumed, 4);
    match event {
        DecodedEvent::Key(dk) => {
            assert_eq!(dk.kind, KeyKind::PageUp);
        }
        _ => panic!("expected Key event"),
    }
}

#[test]
fn framing_csi_tilde_followed_by_char() {
    let data = b"\x1b[5~x";
    let (consumed, _) = decode_one_event(data);
    assert_eq!(consumed, 4, "must consume only the 4-byte CSI ~ sequence");
}

#[test]
fn pending_bytes_queue_is_initially_empty() {
    let pending = PendingBytes::new();
    assert_eq!(pending.len(), 0);
}

#[test]
fn find_csi_end_basic() {
    let data = b"\x1b[A";
    assert_eq!(find_csi_end(data), Some(2));
}

#[test]
fn find_csi_end_parameterised() {
    let data = b"\x1b[1;2A";
    assert_eq!(find_csi_end(data), Some(5));
}

#[test]
fn find_csi_end_tilde() {
    let data = b"\x1b[5~";
    assert_eq!(find_csi_end(data), Some(3));
}

#[test]
fn find_csi_end_none_when_incomplete() {
    let data = b"\x1b[5";
    assert_eq!(find_csi_end(data), None);
}

#[test]
fn find_sgr_mouse_end_basic() {
    let data = b"\x1b[<0;10;20M";
    assert_eq!(find_sgr_mouse_end(data), Some(10));
}

#[test]
fn find_sgr_mouse_end_release() {
    let data = b"\x1b[<0;10;20m";
    assert_eq!(find_sgr_mouse_end(data), Some(10));
}

#[test]
fn find_sgr_mouse_end_none_when_incomplete() {
    let data = b"\x1b[<0;10;20";
    assert_eq!(find_sgr_mouse_end(data), None);
}

#[test]
fn decode_sgr_mouse_hover_motion_is_move() {
    let m = decode_sgr_mouse(b"\x1b[<35;10;5M").expect("should decode hover");
    assert_eq!(m.kind, MouseKind::Move);
    assert_eq!(m.col, 10);
    assert_eq!(m.row, 5);
    assert_eq!(m.button, 0);
}

#[test]
fn framing_unrecognised_csi_is_unknown_event() {
    let (consumed, event) = decode_one_event(b"\x1b[99z");
    assert_eq!(consumed, 5);
    match event {
        DecodedEvent::Unknown(raw) => assert_eq!(raw, "\x1b[99z"),
        _ => panic!("expected Unknown event"),
    }
}

#[test]
fn an_event_frames_the_same_on_its_own() {
    let inputs: [&[u8]; 6] = [b"\x1b[Ax", b"\x1b[<0;5;5Ma", b"\xe3\x81\x82a", b"\x1bOPz", b"\x1bab", b"\x1b[99zq"];
    for data in inputs {
        let (c, ev) = decode_one_event(data);
        let (c2, ev2) = decode_one_event(&data[..c]);
        assert_eq!(c, c2);
        assert_eq!(format!("{ev:?}"), format!("{ev2:?}"));
    }
}

#[test]
fn formatted_sgr_reports_decode_to_their_numbers() {
    for pb in [0u32, 1, 2, 3, 4, 8, 16, 28, 32, 35, 64, 65, 4294967295] {
        for (pc, pr) in [(1u32, 1u32), (10, 20), (300, 100), (4294967295, 0)] {
            for f in ['M', 'm'] {
                let s = format!("\x1b[<{pb};{pc};{pr}{f}");
                let m = decode_sgr_mouse(s.as_bytes()).unwrap();
                assert_eq!((m.col, m.row), (pc as i64, pr as i64));
                assert_eq!((m.shift, m.alt, m.ctrl), (pb & 4 != 0, pb & 8 != 0, pb & 16 != 0));
                if pb & 96 == 0 {
                    assert_eq!(m.button, (pb & 3) as i64);
                    assert_eq!(m.kind, if f == 'm' { MouseKind::Up } else { MouseKind::Down });
                }
                if pb & 64 != 0 {
                    assert_eq!(m.kind, if pb & 3 == 0 { MouseKind::ScrollUp } else { MouseKind::ScrollDown });
                }
            }
        }
    }
}
