use taida_lang_terminal::entry::{call_precheck, EntryStatus};
use taida_lang_terminal::host::{HostField, HostValue};
use taida_lang_terminal::renderer::allocation::buffer_new;
use taida_lang_terminal::renderer::calls::{
    buffer_blit_impl, buffer_clear_impl, buffer_diff_impl, buffer_fill_rect_impl, buffer_new_impl,
    buffer_put_impl, buffer_resize_impl, buffer_write_impl, render_frame_impl, render_full_impl,
    render_ops_impl,
};
use taida_lang_terminal::renderer::diff::render_full;
use taida_lang_terminal::renderer::ops::write_text;
use taida_lang_terminal::renderer::pack::{
    build_buffer, build_cell, build_diff_op, build_diff_result, build_frame_result, build_style,
    parse_buffer, parse_cell, parse_diff_op, parse_diff_ops, parse_style,
};
use taida_lang_terminal::renderer::state::{diff_kind, Cell, CellStyle, DiffOp, RendererError};
use taida_lang_terminal::width::err as width_err;
use taida_lang_terminal::width::{
    display_width_impl, measure_grapheme_impl, normalize_cell_text_impl, pad_width_impl,
    truncate_width_impl, MODE_WIDE,
};

fn s(x: &str) -> HostValue {
    HostValue::Str(x.to_string())
}

fn pack(fields: Vec<(&str, HostValue)>) -> HostValue {
    HostValue::Pack(
        fields
            .into_iter()
            .map(|(n, v)| HostField { name: n.to_string(), value: v })
            .collect(),
    )
}

fn field<'a>(v: &'a HostValue, name: &str) -> &'a HostValue {
    match v {
        HostValue::Pack(fs) => &fs.iter().find(|f| f.name == name).expect("field").value,
        other => panic!("not a pack: {:?}", other),
    }
}

fn text_of(v: &HostValue) -> String {
    match v {
        HostValue::Str(t) => t.clone(),
        other => panic!("not a string: {:?}", other),
    }
}

fn int_of(v: &HostValue) -> i64 {
    match v {
        HostValue::Int(i) => *i,
        other => panic!("not an int: {:?}", other),
    }
}

fn arg_error(r: Result<HostValue, RendererError>) -> String {
    match r {
        Err(e) => e.message(),
        Ok(v) => panic!("expected an error, got {:?}", v),
    }
}

fn small_buffer(cols: i64, rows: i64) -> HostValue {
    build_buffer(&buffer_new(cols, rows))
}

// ── Reading packs ────────────────────────────────────────────────

#[test]
fn style_fields_default_when_missing() {
    let st = parse_style(&pack(vec![("bold", HostValue::Bool(true))])).unwrap();
    assert_eq!(st.fg, "");
    assert!(st.bold && !st.dim && !st.italic && !st.underline);
}

#[test]
fn style_field_of_wrong_kind_is_refused() {
    let r = parse_style(&pack(vec![("fg", s("red")), ("bold", HostValue::Int(1))]));
    assert_eq!(r.unwrap_err().message(), "RendererInvalidArg: bold must be a Bool");
    let r = parse_style(&s("red"));
    assert_eq!(r.unwrap_err().message(), "RendererInvalidArg: style must be a pack");
}

#[test]
fn first_bad_field_is_reported() {
    let r = parse_style(&pack(vec![("italic", s("x")), ("fg", HostValue::Bool(true))]));
    assert_eq!(r.unwrap_err().message(), "RendererInvalidArg: fg must be a Str");
}

#[test]
fn cell_text_defaults_to_a_space() {
    let c = parse_cell(&pack(vec![])).unwrap();
    assert_eq!(c.text, " ");
    let c = parse_cell(&pack(vec![("text", s(""))])).unwrap();
    assert_eq!(c.text, " ");
    let c = parse_cell(&pack(vec![("text", s("漢")), ("fg", s("red"))])).unwrap();
    assert_eq!(c.text, "漢");
    assert_eq!(c.style.fg, "red");
    let r = parse_cell(&HostValue::Int(3));
    assert_eq!(r.unwrap_err().message(), "RendererInvalidArg: cell must be a pack");
}

#[test]
fn buffer_cells_must_match_the_dimensions() {
    let one = pack(vec![("text", s("a"))]);
    let r = parse_buffer(&pack(vec![
        ("cols", HostValue::Int(2)),
        ("rows", HostValue::Int(2)),
        ("cells", HostValue::List(vec![one])),
    ]));
    assert_eq!(
        r.unwrap_err().message(),
        "RendererInvalidArg: buffer.cells length mismatch: have 1, expected cols*rows=4"
    );
}

#[test]
fn buffer_with_negative_dimensions_is_refused() {
    let r = parse_buffer(&pack(vec![
        ("cols", HostValue::Int(-2)),
        ("rows", HostValue::Int(3)),
        ("cells", HostValue::List(vec![])),
        ("cursor_col", HostValue::Int(1)),
        ("cursor_row", HostValue::Int(1)),
        ("cursor_visible", HostValue::Bool(true)),
    ]));
    assert!(matches!(r, Err(RendererError::InvalidArg(_))));
    assert_eq!(
        r.unwrap_err().message(),
        "RendererInvalidArg: buffer.cols and buffer.rows must not be negative"
    );
    let r = parse_buffer(&pack(vec![("rows", HostValue::Int(-1)), ("cells", HostValue::List(vec![]))]));
    assert!(matches!(r, Err(RendererError::InvalidArg(_))));
}

#[test]
fn buffer_cells_missing_or_not_a_list() {
    let r = parse_buffer(&pack(vec![("cols", HostValue::Int(1)), ("rows", HostValue::Int(1))]));
    assert_eq!(r.unwrap_err().message(), "RendererInvalidArg: buffer.cells missing");
    let r = parse_buffer(&pack(vec![("cells", s("x"))]));
    assert_eq!(r.unwrap_err().message(), "RendererInvalidArg: buffer.cells must be a list");
    let r = parse_buffer(&pack(vec![("cols", s("2"))]));
    assert_eq!(r.unwrap_err().message(), "RendererInvalidArg: cols must be an Int");
    let r = parse_buffer(&HostValue::Other);
    assert_eq!(r.unwrap_err().message(), "RendererInvalidArg: buffer must be a pack");
}

#[test]
fn buffer_defaults_and_hashes() {
    let b = parse_buffer(&pack(vec![("cells", HostValue::List(vec![]))])).unwrap();
    assert_eq!((b.cols, b.rows, b.cursor_col, b.cursor_row, b.cursor_visible), (0, 0, 1, 1, true));
    assert_eq!(b.row_hashes, Some(vec![]));
    let cells = vec![pack(vec![("text", s("a"))]), pack(vec![("text", s("b"))])];
    let b = parse_buffer(&pack(vec![
        ("cols", HostValue::Int(2)),
        ("rows", HostValue::Int(1)),
        ("cells", HostValue::List(cells)),
    ]))
    .unwrap();
    assert_eq!(b.cells[1].text, "b");
    assert_eq!(b.row_hashes.as_ref().map(|h| h.len()), Some(1));
}

#[test]
fn a_bad_cell_is_reported() {
    let cells = vec![pack(vec![]), pack(vec![("dim", s("no"))])];
    let r = parse_buffer(&pack(vec![
        ("cols", HostValue::Int(2)),
        ("rows", HostValue::Int(1)),
        ("cells", HostValue::List(cells)),
    ]));
    assert_eq!(r.unwrap_err().message(), "RendererInvalidArg: dim must be a Bool");
}

#[test]
fn diff_op_defaults() {
    let op = parse_diff_op(&pack(vec![("text", s("x"))])).unwrap();
    assert_eq!((op.kind, op.col, op.row, op.text.as_str()), (diff_kind::WRITE, 1, 1, "x"));
    assert!(op.style.is_empty());
    let r = parse_diff_ops(&pack(vec![]));
    assert_eq!(r.unwrap_err().message(), "RendererInvalidArg: ops must be a list");
    let r = parse_diff_ops(&HostValue::List(vec![pack(vec![]), s("x")]));
    assert_eq!(r.unwrap_err().message(), "RendererInvalidArg: diff_op must be a pack");
}

// ── Building packs and reading them back ─────────────────────────

#[test]
fn buffer_round_trip() {
    let mut b = buffer_new(4, 2);
    let mut red = CellStyle::empty();
    red.fg = "red".to_string();
    red.bold = true;
    write_text(&mut b, 2, 2, "漢a", &red);
    b.cursor_col = 3;
    b.cursor_visible = false;
    let v = build_buffer(&b);
    let back = parse_buffer(&v).unwrap();
    assert_eq!(back.cols, 4);
    assert_eq!(back.rows, 2);
    assert_eq!(back.cells, b.cells);
    assert_eq!((back.cursor_col, back.cursor_row, back.cursor_visible), (3, 1, false));
    let mut rehashed = b.clone();
    rehashed.compute_row_hashes();
    assert_eq!(back.row_hashes, rehashed.row_hashes);
}

#[test]
fn cell_style_and_op_round_trips() {
    let mut st = CellStyle::empty();
    st.bg = "blue".to_string();
    st.underline = true;
    assert_eq!(parse_style(&build_style(&st)).unwrap(), st);
    let c = Cell { text: "x".to_string(), style: st.clone() };
    assert_eq!(parse_cell(&build_cell(&c)).unwrap(), c);
    let op = DiffOp { kind: diff_kind::MOVE_TO, col: 7, row: 3, text: String::new(), style: st };
    let back = parse_diff_op(&build_diff_op(&op)).unwrap();
    assert_eq!((back.kind, back.col, back.row, back.text), (op.kind, op.col, op.row, op.text));
    assert_eq!(back.style, op.style);
}

#[test]
fn diff_and_frame_result_shapes() {
    let op = DiffOp { kind: diff_kind::SHOW_CURSOR, col: 1, row: 1, text: String::new(), style: CellStyle::empty() };
    let v = build_diff_result(&[op], true);
    assert!(matches!(field(&v, "requires_full"), HostValue::Bool(true)));
    match field(&v, "ops") {
        HostValue::List(items) => assert_eq!(int_of(field(&items[0], "kind")), diff_kind::SHOW_CURSOR),
        other => panic!("unexpected {:?}", other),
    }
    let b = buffer_new(1, 1);
    let f = build_frame_result("abc", &b);
    assert_eq!(text_of(field(&f, "text")), "abc");
    assert_eq!(int_of(field(field(&f, "next"), "cols")), 1);
}

// ── Entries ──────────────────────────────────────────────────────

#[test]
fn buffer_new_impl_checks_its_arguments() {
    assert_eq!(
        arg_error(buffer_new_impl(&s("3"), &HostValue::Int(2))),
        "RendererInvalidArg: cols must be Int"
    );
    assert_eq!(
        arg_error(buffer_new_impl(&HostValue::Int(3), &HostValue::Bool(true))),
        "RendererInvalidArg: rows must be Int"
    );
    assert_eq!(
        arg_error(buffer_new_impl(&HostValue::Int(0), &HostValue::Int(2))),
        "RendererInvalidSize: cols must be >= 1"
    );
    assert_eq!(
        arg_error(buffer_new_impl(&HostValue::Int(5000), &HostValue::Int(5000))),
        "RendererInvalidSize: buffer of 5000x5000 cells exceeds the 4000000-cell limit"
    );
    let v = buffer_new_impl(&HostValue::Int(3), &HostValue::Int(2)).unwrap();
    let b = parse_buffer(&v).unwrap();
    assert_eq!((b.cols, b.rows, b.cells.len()), (3, 2, 6));
}

#[test]
fn buffer_resize_impl_clamps_and_ignores_fill() {
    let mut prev = buffer_new(10, 10);
    prev.cursor_col = 8;
    let v = buffer_resize_impl(&build_buffer(&prev), &HostValue::Int(5), &HostValue::Int(4), &HostValue::Other)
        .unwrap();
    let b = parse_buffer(&v).unwrap();
    assert_eq!((b.cols, b.rows, b.cursor_col), (5, 4, 5));
    assert!(b.cells.iter().all(|c| c.text == " "));
}

#[test]
fn buffer_put_impl_out_of_bounds_and_success() {
    let buf = small_buffer(2, 2);
    let cell = pack(vec![("text", s("Z"))]);
    assert_eq!(
        arg_error(buffer_put_impl(&buf, &HostValue::Int(3), &HostValue::Int(1), &cell)),
        "RendererOutOfBounds: col 3 row 1 out of bounds"
    );
    let v = buffer_put_impl(&buf, &HostValue::Int(2), &HostValue::Int(2), &cell).unwrap();
    assert_eq!(parse_buffer(&v).unwrap().cells[3].text, "Z");
}

#[test]
fn buffer_write_impl_text_must_be_a_string() {
    let buf = small_buffer(4, 1);
    assert_eq!(
        arg_error(buffer_write_impl(&buf, &HostValue::Int(1), &HostValue::Int(1), &HostValue::Int(5), &pack(vec![]))),
        "RendererInvalidArg: text must be Str"
    );
    let v = buffer_write_impl(&buf, &HostValue::Int(2), &HostValue::Int(1), &s("hi"), &pack(vec![])).unwrap();
    let b = parse_buffer(&v).unwrap();
    let texts: Vec<&str> = b.cells.iter().map(|c| c.text.as_str()).collect();
    assert_eq!(texts, vec![" ", "h", "i", " "]);
}

#[test]
fn buffer_fill_rect_impl_and_clear_impl() {
    let buf = small_buffer(3, 2);
    let hash = pack(vec![("text", s("#"))]);
    assert_eq!(
        arg_error(buffer_fill_rect_impl(&buf, &HostValue::Int(0), &HostValue::Int(1), &HostValue::Int(1), &HostValue::Int(1), &hash)),
        "RendererOutOfBounds: col out of bounds"
    );
    assert_eq!(
        arg_error(buffer_fill_rect_impl(&buf, &HostValue::Int(1), &HostValue::Int(1), &s("w"), &HostValue::Int(1), &hash)),
        "RendererInvalidArg: width must be Int"
    );
    let v = buffer_fill_rect_impl(&buf, &HostValue::Int(2), &HostValue::Int(1), &HostValue::Int(9), &HostValue::Int(1), &hash).unwrap();
    let texts: Vec<String> = parse_buffer(&v).unwrap().cells.into_iter().map(|c| c.text).collect();
    assert_eq!(texts, vec![" ", "#", "#", " ", " ", " "]);
    let v = buffer_clear_impl(&buf, &pack(vec![("text", s("."))])).unwrap();
    assert!(parse_buffer(&v).unwrap().cells.iter().all(|c| c.text == "."));
}

#[test]
fn buffer_blit_impl_reports_the_corner() {
    let main = small_buffer(3, 3);
    let sub = small_buffer(1, 1);
    assert_eq!(
        arg_error(buffer_blit_impl(&main, &sub, &HostValue::Int(2), &HostValue::Int(0))),
        "RendererOutOfBounds: row 0 must be >= 1"
    );
    assert!(buffer_blit_impl(&main, &sub, &HostValue::Int(3), &HostValue::Int(3)).is_ok());
}

#[test]
fn render_entries_agree_with_the_library() {
    let b = buffer_new(2, 1);
    let v = build_buffer(&b);
    assert_eq!(text_of(&render_full_impl(&v).unwrap()), render_full(&b));
    let mut next = b.clone();
    write_text(&mut next, 1, 1, "q", &CellStyle::empty());
    let nv = build_buffer(&next);
    let d = buffer_diff_impl(&v, &nv).unwrap();
    assert!(matches!(field(&d, "requires_full"), HostValue::Bool(false)));
    let ops = field(&d, "ops");
    assert_eq!(text_of(&render_ops_impl(ops).unwrap()), "\x1b[1;1Hq");
    let f = render_frame_impl(&v, &nv).unwrap();
    assert_eq!(text_of(field(&f, "text")), "\x1b[1;1Hq");
    let bigger = small_buffer(3, 1);
    let f = render_frame_impl(&v, &bigger).unwrap();
    assert_eq!(text_of(field(&f, "text")), render_full(&buffer_new(3, 1)));
}

#[test]
fn width_entries() {
    let r = display_width_impl(&s("漢字a")).unwrap();
    assert_eq!(int_of(&r), 5);
    let e = display_width_impl(&HostValue::Int(1)).unwrap_err();
    assert_eq!(e.code, width_err::WIDTH_INVALID_ARG);
    assert_eq!(e.message, "WidthInvalidArg: text must be a Str");
    let m = measure_grapheme_impl(&s("漢")).unwrap();
    assert_eq!((int_of(field(&m, "width")), int_of(field(&m, "mode"))), (2, MODE_WIDE));
    assert_eq!(text_of(&normalize_cell_text_impl(&s("a\tb")).unwrap()), "a    b");
    assert_eq!(text_of(&truncate_width_impl(&s("漢字"), &HostValue::Int(3)).unwrap()), "漢");
    let e = truncate_width_impl(&s("x"), &s("3")).unwrap_err();
    assert_eq!(e.message, "WidthInvalidArg: width must be an Int");
    assert_eq!(text_of(&pad_width_impl(&s("ab"), &HostValue::Int(4)).unwrap()), "ab  ");
}

// ── Argument counts of the entries outside the function table ────

#[test]
fn buffer_new_impl_rejects_zero_cols() {
    assert_eq!(call_precheck(2, 1, false), EntryStatus::ArityMismatch);
}

#[test]
fn buffer_resize_impl_arity_mismatch() {
    assert_eq!(call_precheck(4, 3, false), EntryStatus::ArityMismatch);
}

#[test]
fn buffer_new_impl_invalid_state_when_host_null() {
    assert_eq!(call_precheck(2, 2, false), EntryStatus::InvalidState);
}

#[test]
fn buffer_resize_impl_invalid_state_when_host_null() {
    assert_eq!(call_precheck(4, 4, false), EntryStatus::InvalidState);
}

#[test]
fn display_width_arity_mismatch() {
    assert_eq!(call_precheck(1, 0, false), EntryStatus::ArityMismatch);
}

#[test]
fn display_width_invalid_state_when_host_null() {
    assert_eq!(call_precheck(1, 1, false), EntryStatus::InvalidState);
}

#[test]
fn measure_grapheme_arity_mismatch() {
    assert_eq!(call_precheck(1, 2, false), EntryStatus::ArityMismatch);
}

#[test]
fn truncate_width_arity_mismatch() {
    assert_eq!(call_precheck(2, 1, false), EntryStatus::ArityMismatch);
}

#[test]
fn pad_width_arity_mismatch() {
    assert_eq!(call_precheck(2, 3, false), EntryStatus::ArityMismatch);
}

#[test]
fn normalize_cell_text_arity_mismatch() {
    assert_eq!(call_precheck(1, 2, false), EntryStatus::ArityMismatch);
}
