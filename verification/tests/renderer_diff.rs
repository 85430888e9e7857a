use taida_lang_terminal::renderer::diff::{
    bg_code, cursor_move_to, diff_buffers, fg_code, render_full, render_one_op,
    render_ops_to_string, write_styled, ANSI_CLEAR_LINE, ANSI_CURSOR_HIDE, ANSI_CURSOR_SHOW,
    ANSI_RESET,
};
use taida_lang_terminal::renderer::state::{diff_kind, BufferState, Cell, CellStyle, DiffOp};

fn make_buf(cols: i64, rows: i64) -> BufferState {
    BufferState {
        cols,
        rows,
        cells: vec![Cell::default_space(); (cols * rows) as usize],
        cursor_col: 1,
        cursor_row: 1,
        cursor_visible: true,
        row_hashes: None,
    }
}

fn make_buf_hashed(cols: i64, rows: i64) -> BufferState {
    let mut buf = make_buf(cols, rows);
    buf.compute_row_hashes();
    buf
}

#[test]
fn cursor_move_to_uses_row_then_col() {
    let mut s = String::new();
    cursor_move_to(&mut s, 5, 10);
    assert_eq!(s, "\x1b[10;5H");
}

#[test]
fn ansi_constants_match_facade() {
    assert_eq!(ANSI_CURSOR_HIDE, "\x1b[?25l");
    assert_eq!(ANSI_CURSOR_SHOW, "\x1b[?25h");
    assert_eq!(ANSI_CLEAR_LINE, "\x1b[2K\r");
    assert_eq!(ANSI_RESET, "\x1b[0m");
}

#[test]
fn fg_code_palette_matches_facade() {
    assert_eq!(fg_code("black"), Some(30));
    assert_eq!(fg_code("red"), Some(31));
    assert_eq!(fg_code("green"), Some(32));
    assert_eq!(fg_code("yellow"), Some(33));
    assert_eq!(fg_code("blue"), Some(34));
    assert_eq!(fg_code("magenta"), Some(35));
    assert_eq!(fg_code("cyan"), Some(36));
    assert_eq!(fg_code("white"), Some(37));
    assert_eq!(fg_code("bright_black"), Some(90));
    assert_eq!(fg_code("bright_white"), Some(97));
    assert_eq!(fg_code(""), None);
    assert_eq!(fg_code("orange"), None);
}

#[test]
fn bg_code_palette_matches_facade() {
    assert_eq!(bg_code("black"), Some(40));
    assert_eq!(bg_code("white"), Some(47));
    assert_eq!(bg_code("bright_black"), Some(100));
    assert_eq!(bg_code("bright_white"), Some(107));
    assert_eq!(bg_code(""), None);
}

#[test]
fn write_styled_plain_when_no_style() {
    let mut s = String::new();
    write_styled(&mut s, "hello", &CellStyle::empty());
    assert_eq!(s, "hello");
}

#[test]
fn write_styled_emits_sgr_then_text_then_reset() {
    let mut style = CellStyle::empty();
    style.fg = "red".to_string();
    style.bold = true;
    let mut s = String::new();
    write_styled(&mut s, "x", &style);
    assert_eq!(s, "\x1b[1;31mx\x1b[0m");
}

#[test]
fn write_styled_unknown_color_falls_back_to_plain() {
    let mut style = CellStyle::empty();
    style.fg = "chartreuse".to_string();
    let mut s = String::new();
    write_styled(&mut s, "x", &style);
    assert_eq!(s, "x");
}

#[test]
fn render_full_empty_buffer_returns_empty() {
    let buf = BufferState {
        cols: 0,
        rows: 0,
        cells: Vec::new(),
        cursor_col: 1,
        cursor_row: 1,
        cursor_visible: true,
        row_hashes: None,
    };
    assert_eq!(render_full(&buf), "");
}

#[test]
fn render_full_emits_hide_rows_and_cursor() {
    let buf = make_buf(2, 1);
    let out = render_full(&buf);
    let expected = "\x1b[?25l\x1b[1;1H  \x1b[1;1H\x1b[?25h";
    assert_eq!(out, expected);
}

#[test]
fn render_full_invisible_cursor_skips_show() {
    let mut buf = make_buf(1, 1);
    buf.cursor_visible = false;
    let out = render_full(&buf);
    let expected = "\x1b[?25l\x1b[1;1H \x1b[1;1H";
    assert_eq!(out, expected);
}

#[test]
fn render_one_op_move_to() {
    let mut s = String::new();
    let op = DiffOp {
        kind: diff_kind::MOVE_TO,
        col: 3,
        row: 7,
        text: String::new(),
        style: CellStyle::empty(),
    };
    render_one_op(&mut s, &op);
    assert_eq!(s, "\x1b[7;3H");
}

#[test]
fn render_one_op_clear_line() {
    let mut s = String::new();
    let op = DiffOp {
        kind: diff_kind::CLEAR_LINE,
        col: 1,
        row: 1,
        text: String::new(),
        style: CellStyle::empty(),
    };
    render_one_op(&mut s, &op);
    assert_eq!(s, "\x1b[2K\r");
}

#[test]
fn render_one_op_show_hide_cursor() {
    let mut s = String::new();
    let show = DiffOp {
        kind: diff_kind::SHOW_CURSOR,
        col: 1,
        row: 1,
        text: String::new(),
        style: CellStyle::empty(),
    };
    let hide = DiffOp {
        kind: diff_kind::HIDE_CURSOR,
        col: 1,
        row: 1,
        text: String::new(),
        style: CellStyle::empty(),
    };
    render_one_op(&mut s, &show);
    render_one_op(&mut s, &hide);
    assert_eq!(s, "\x1b[?25h\x1b[?25l");
}

#[test]
fn render_one_op_write_emits_move_then_styled_text() {
    let mut s = String::new();
    let op = DiffOp {
        kind: diff_kind::WRITE,
        col: 5,
        row: 2,
        text: "x".to_string(),
        style: CellStyle::empty(),
    };
    render_one_op(&mut s, &op);
    assert_eq!(s, "\x1b[2;5Hx");
}

#[test]
fn diff_identical_buffers_returns_no_ops() {
    let prev = make_buf(3, 2);
    let next = make_buf(3, 2);
    let (ops, requires_full) = diff_buffers(&prev, &next);
    assert!(!requires_full);
    assert!(ops.is_empty());
}

#[test]
fn diff_size_change_requires_full() {
    let prev = make_buf(3, 2);
    let next = make_buf(4, 2);
    let (ops, requires_full) = diff_buffers(&prev, &next);
    assert!(requires_full);
    assert!(ops.is_empty());
}

#[test]
fn diff_one_changed_cell_emits_one_write_op() {
    let prev = make_buf(3, 2);
    let mut next = make_buf(3, 2);
    next.cells[2] = Cell {
        text: "X".to_string(),
        style: CellStyle::empty(),
    };
    let (ops, requires_full) = diff_buffers(&prev, &next);
    assert!(!requires_full);
    assert_eq!(ops.len(), 1);
    let op = &ops[0];
    assert_eq!(op.kind, diff_kind::WRITE);
    assert_eq!(op.col, 3);
    assert_eq!(op.row, 1);
    assert_eq!(op.text, "X");
}

#[test]
fn diff_visibility_change_emits_visibility_op() {
    let prev = make_buf(2, 1);
    let mut next = make_buf(2, 1);
    next.cursor_visible = false;
    let (ops, requires_full) = diff_buffers(&prev, &next);
    assert!(!requires_full);
    assert_eq!(ops.len(), 1);
    assert_eq!(ops[0].kind, diff_kind::HIDE_CURSOR);
}

#[test]
fn diff_cursor_move_emits_move_op() {
    let prev = make_buf(3, 3);
    let mut next = make_buf(3, 3);
    next.cursor_col = 2;
    next.cursor_row = 3;
    let (ops, requires_full) = diff_buffers(&prev, &next);
    assert!(!requires_full);
    assert_eq!(ops.len(), 1);
    assert_eq!(ops[0].kind, diff_kind::MOVE_TO);
    assert_eq!(ops[0].col, 2);
    assert_eq!(ops[0].row, 3);
}

#[test]
fn render_ops_concatenates_in_order() {
    let ops = vec![
        DiffOp {
            kind: diff_kind::WRITE,
            col: 1,
            row: 1,
            text: "a".to_string(),
            style: CellStyle::empty(),
        },
        DiffOp {
            kind: diff_kind::MOVE_TO,
            col: 2,
            row: 2,
            text: String::new(),
            style: CellStyle::empty(),
        },
    ];
    let out = render_ops_to_string(&ops);
    assert_eq!(out, "\x1b[1;1Ha\x1b[2;2H");
}

#[test]
fn diff_identical_buffers_with_row_hashes_returns_no_ops() {
    let prev = make_buf_hashed(8, 4);
    let next = make_buf_hashed(8, 4);
    let (ops, requires_full) = diff_buffers(&prev, &next);
    assert!(!requires_full);
    assert!(ops.is_empty());
}

#[test]
fn diff_one_changed_cell_with_row_hashes_emits_one_write_op() {
    let prev = make_buf_hashed(8, 3);
    let mut next = make_buf(8, 3);
    next.cells[8 + 3] = Cell {
        text: "X".to_string(),
        style: CellStyle::empty(),
    };
    next.compute_row_hashes();
    let (ops, requires_full) = diff_buffers(&prev, &next);
    assert!(!requires_full);
    assert_eq!(ops.len(), 1);
    assert_eq!(ops[0].kind, diff_kind::WRITE);
    assert_eq!(ops[0].col, 4);
    assert_eq!(ops[0].row, 2);
    assert_eq!(ops[0].text, "X");
}

#[test]
fn diff_two_diff_cells_in_different_rows_with_row_hashes() {
    let prev = make_buf_hashed(3, 4);
    let mut next = make_buf(3, 4);
    next.cells[1] = Cell {
        text: "A".to_string(),
        style: CellStyle::empty(),
    };
    next.cells[7] = Cell {
        text: "B".to_string(),
        style: CellStyle::empty(),
    };
    next.compute_row_hashes();
    let (ops, requires_full) = diff_buffers(&prev, &next);
    assert!(!requires_full);
    assert_eq!(ops.len(), 2);
    assert_eq!((ops[0].col, ops[0].row, ops[0].text.as_str()), (2, 1, "A"));
    assert_eq!((ops[1].col, ops[1].row, ops[1].text.as_str()), (2, 3, "B"));
}

#[test]
fn diff_fast_path_and_slow_path_agree_on_random_change() {
    let mut a = make_buf(5, 4);
    let mut b = make_buf(5, 4);
    b.cells[0].text = "1".to_string();
    b.cells[6].style.bold = true;
    b.cells[14].style.fg = "red".to_string();
    b.cells[19].text = "Z".to_string();

    let (slow_ops, slow_full) = diff_buffers(&a, &b);

    a.compute_row_hashes();
    b.compute_row_hashes();
    let (fast_ops, fast_full) = diff_buffers(&a, &b);

    assert_eq!(slow_full, fast_full);
    assert_eq!(slow_ops.len(), fast_ops.len(), "op count differs");
    for (s, f) in slow_ops.iter().zip(fast_ops.iter()) {
        assert_eq!(s.kind, f.kind);
        assert_eq!(s.col, f.col);
        assert_eq!(s.row, f.row);
        assert_eq!(s.text, f.text);
        assert_eq!(s.style, f.style);
    }
}

#[test]
fn diff_fast_path_handles_only_one_side_having_row_hashes() {
    let mut prev = make_buf(4, 2);
    let mut next = make_buf(4, 2);
    next.cells[5] = Cell {
        text: "X".to_string(),
        style: CellStyle::empty(),
    };
    prev.compute_row_hashes();
    let (ops, requires_full) = diff_buffers(&prev, &next);
    assert!(!requires_full);
    assert_eq!(ops.len(), 1);
    assert_eq!(ops[0].text, "X");
}
