use std::time::Instant;
use taida_lang_terminal::renderer::ops::char_width as ops_char_width;
use taida_lang_terminal::width::err;
use taida_lang_terminal::width::{
    char_width, display_width, measure_grapheme, normalize_cell_text, pad_width, truncate_width,
    MODE_NARROW, MODE_WIDE, MODE_ZERO,
};

#[test]
fn display_width_empty_is_zero() {
    assert_eq!(display_width(""), 0);
}

#[test]
fn display_width_ascii_is_length() {
    assert_eq!(display_width("hello"), 5);
    assert_eq!(display_width("a"), 1);
}

#[test]
fn display_width_cjk_is_double() {
    assert_eq!(display_width("漢字"), 4);
}

#[test]
fn display_width_mixed() {
    assert_eq!(display_width("A漢B"), 4);
}

#[test]
fn display_width_combining_is_zero() {
    assert_eq!(display_width("Cafe\u{0301}"), 4);
}

#[test]
fn display_width_control_is_zero() {
    assert_eq!(display_width("\t"), 0);
    assert_eq!(display_width("\0"), 0);
    assert_eq!(display_width("\x7f"), 0);
}

#[test]
fn measure_grapheme_empty() {
    assert_eq!(measure_grapheme(""), (0, MODE_ZERO));
}

#[test]
fn measure_grapheme_ascii_narrow() {
    assert_eq!(measure_grapheme("A"), (1, MODE_NARROW));
}

#[test]
fn measure_grapheme_cjk_wide() {
    assert_eq!(measure_grapheme("漢"), (2, MODE_WIDE));
}

#[test]
fn measure_grapheme_combining_zero() {
    assert_eq!(measure_grapheme("\u{0301}"), (0, MODE_ZERO));
}

#[test]
fn measure_grapheme_only_looks_at_first_scalar() {
    assert_eq!(measure_grapheme("Ab"), (1, MODE_NARROW));
    assert_eq!(measure_grapheme("漢A"), (2, MODE_WIDE));
}

#[test]
fn normalize_empty_becomes_space() {
    assert_eq!(normalize_cell_text(""), " ");
}

#[test]
fn normalize_tab_becomes_four_spaces() {
    assert_eq!(normalize_cell_text("\t"), "    ");
    assert_eq!(normalize_cell_text("a\tb"), "a    b");
}

#[test]
fn normalize_newline_stripped() {
    assert_eq!(normalize_cell_text("a\nb"), "ab");
    assert_eq!(normalize_cell_text("a\rb"), "ab");
    assert_eq!(normalize_cell_text("a\r\nb"), "ab");
}

#[test]
fn normalize_only_newline_becomes_space() {
    assert_eq!(normalize_cell_text("\n"), " ");
    assert_eq!(normalize_cell_text("\n\r"), " ");
}

#[test]
fn normalize_preserves_printable_text() {
    assert_eq!(normalize_cell_text("hello"), "hello");
    assert_eq!(normalize_cell_text("漢字"), "漢字");
}

#[test]
fn truncate_width_less_than_one_returns_empty() {
    assert_eq!(truncate_width("hello", 0), "");
    assert_eq!(truncate_width("hello", -1), "");
}

#[test]
fn truncate_width_empty_input_returns_empty() {
    assert_eq!(truncate_width("", 10), "");
}

#[test]
fn truncate_width_fits_returns_all() {
    assert_eq!(truncate_width("hello", 10), "hello");
    assert_eq!(truncate_width("hello", 5), "hello");
}

#[test]
fn truncate_width_stops_before_overflow() {
    assert_eq!(truncate_width("hello", 3), "hel");
    assert_eq!(truncate_width("A漢B", 2), "A");
    assert_eq!(truncate_width("A漢B", 3), "A漢");
    assert_eq!(truncate_width("A漢B", 4), "A漢B");
}

#[test]
fn pad_width_already_wider_returns_text() {
    assert_eq!(pad_width("hello", 3), "hello");
    assert_eq!(pad_width("hello", 5), "hello");
}

#[test]
fn pad_width_adds_spaces() {
    assert_eq!(pad_width("hi", 5), "hi   ");
    assert_eq!(pad_width("", 3), "   ");
}

#[test]
fn pad_width_respects_cjk_width() {
    assert_eq!(pad_width("漢", 5), "漢   ");
}

#[test]
fn width_error_codes_are_frozen() {
    assert_eq!(err::WIDTH_INVALID_ARG, 6101);
    assert_eq!(err::WIDTH_BUILD_VALUE, 6102);
    assert_eq!(err::WIDTH_PANIC, 6103);
}

#[test]
fn width_mode_constants_match_facade() {
    assert_eq!(MODE_NARROW, 0);
    assert_eq!(MODE_WIDE, 1);
    assert_eq!(MODE_ZERO, 2);
}

#[test]
fn display_width_is_linear_in_length() {
    let small = "A".repeat(100);
    let large = "A".repeat(1600);

    let t_small = Instant::now();
    for _ in 0..200 {
        let _ = display_width(&small);
    }
    let ts = t_small.elapsed();

    let t_large = Instant::now();
    for _ in 0..200 {
        let _ = display_width(&large);
    }
    let tl = t_large.elapsed();

    let ratio = tl.as_nanos() as f64 / ts.as_nanos().max(1) as f64;
    assert!(
        ratio < 50.0,
        "display_width appears super-linear: 1600-char/100-char ratio = {ratio:.1}× \
         (linear target ≈ 16×, quadratic target ≈ 256×). small={ts:?}, large={tl:?}"
    );
}

#[test]
fn pad_width_is_linear_in_target_width() {
    let t_small = Instant::now();
    for _ in 0..500 {
        let _ = pad_width("hi", 100);
    }
    let ts = t_small.elapsed();

    let t_large = Instant::now();
    for _ in 0..500 {
        let _ = pad_width("hi", 1600);
    }
    let tl = t_large.elapsed();

    let ratio = tl.as_nanos() as f64 / ts.as_nanos().max(1) as f64;
    assert!(
        ratio < 50.0,
        "pad_width appears super-linear: 1600/100 ratio = {ratio:.1}× \
         (linear target ≈ 16×, quadratic target ≈ 256×). small={ts:?}, large={tl:?}"
    );
}

#[test]
fn width_table_matches_renderer_ops() {
    for cp in (0..=0x20000u32).step_by(17) {
        let ours = char_width(cp);
        let theirs = ops_char_width(cp);
        assert_eq!(
            ours, theirs,
            "width mismatch at U+{cp:04X}: width.rs={ours} vs renderer/ops.rs={theirs}"
        );
    }
}
