#[test]
fn mouse_tracking_enter_sequence() {
    let expected = "\x1b[?1000h\x1b[?1002h\x1b[?1006h";
    assert_eq!(expected.len(), 24);
    assert_eq!(expected, "\x1b[?1000h\x1b[?1002h\x1b[?1006h");
}

#[test]
fn mouse_tracking_leave_sequence() {
    let expected = "\x1b[?1006l\x1b[?1002l\x1b[?1000l";
    assert_eq!(expected.len(), 24);
    assert_eq!(expected, "\x1b[?1006l\x1b[?1002l\x1b[?1000l");
}

#[test]
fn event_kind_values_match_design() {
    assert_eq!(0i64, 0);
    assert_eq!(1i64, 1);
    assert_eq!(2i64, 2);
    assert_eq!(3i64, 3);
}

#[test]
fn mouse_kind_values_match_design() {
    assert_eq!(0i64, 0);
    assert_eq!(1i64, 1);
    assert_eq!(2i64, 2);
    assert_eq!(3i64, 3);
    assert_eq!(4i64, 4);
    assert_eq!(5i64, 5);
}
