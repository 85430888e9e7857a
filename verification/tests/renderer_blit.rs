use taida_lang_terminal::renderer::blit::blit_into;
use taida_lang_terminal::renderer::state::{BufferState, Cell, CellStyle};

fn make_buf(cols: i64, rows: i64, fill: &str) -> BufferState {
    let cell = Cell {
        text: fill.to_string(),
        style: CellStyle::empty(),
    };
    BufferState {
        cols,
        rows,
        cells: vec![cell; (cols * rows) as usize],
        cursor_col: 1,
        cursor_row: 1,
        cursor_visible: true,
        row_hashes: None,
    }
}

fn row_texts(buf: &BufferState) -> Vec<String> {
    let cols = buf.cols as usize;
    let rows = buf.rows as usize;
    (0..rows)
        .map(|r| {
            (0..cols)
                .map(|c| buf.cells[r * cols + c].text.clone())
                .collect::<String>()
        })
        .collect()
}

#[test]
fn blit_identity_same_size() {
    let mut main = make_buf(4, 3, ".");
    let sub = make_buf(4, 3, "#");
    blit_into(&mut main, &sub, 1, 1);
    for cell in &main.cells {
        assert_eq!(cell.text, "#");
    }
}

#[test]
fn blit_partial_in_middle() {
    let mut main = make_buf(5, 4, ".");
    let sub = make_buf(2, 2, "#");
    blit_into(&mut main, &sub, 3, 2);
    let rows = row_texts(&main);
    assert_eq!(rows[0], ".....");
    assert_eq!(rows[1], "..##.");
    assert_eq!(rows[2], "..##.");
    assert_eq!(rows[3], ".....");
}

#[test]
fn blit_clips_at_right_edge() {
    let mut main = make_buf(4, 4, ".");
    let sub = make_buf(5, 5, "#");
    blit_into(&mut main, &sub, 3, 3);
    let rows = row_texts(&main);
    assert_eq!(rows[0], "....");
    assert_eq!(rows[1], "....");
    assert_eq!(rows[2], "..##");
    assert_eq!(rows[3], "..##");
}

#[test]
fn blit_clips_at_bottom_edge() {
    let mut main = make_buf(3, 4, ".");
    let sub = make_buf(3, 3, "#");
    blit_into(&mut main, &sub, 1, 3);
    let rows = row_texts(&main);
    assert_eq!(rows[0], "...");
    assert_eq!(rows[1], "...");
    assert_eq!(rows[2], "###");
    assert_eq!(rows[3], "###");
}

#[test]
fn blit_start_past_right_is_noop() {
    let mut main = make_buf(4, 3, ".");
    let before = main.cells.clone();
    let sub = make_buf(2, 2, "#");
    blit_into(&mut main, &sub, 10, 1);
    assert_eq!(main.cells, before);
}

#[test]
fn blit_start_past_bottom_is_noop() {
    let mut main = make_buf(4, 3, ".");
    let before = main.cells.clone();
    let sub = make_buf(2, 2, "#");
    blit_into(&mut main, &sub, 1, 10);
    assert_eq!(main.cells, before);
}

#[test]
fn blit_preserves_style_per_cell() {
    let mut main = make_buf(3, 1, ".");
    let mut sub = make_buf(2, 1, "a");
    sub.cells[0].style.fg = "red".to_string();
    sub.cells[1].style.bold = true;
    blit_into(&mut main, &sub, 1, 1);
    assert_eq!(main.cells[0].text, "a");
    assert_eq!(main.cells[0].style.fg, "red");
    assert!(!main.cells[0].style.bold);
    assert_eq!(main.cells[1].text, "a");
    assert_eq!(main.cells[1].style.fg, "");
    assert!(main.cells[1].style.bold);
    assert_eq!(main.cells[2].text, ".");
}

#[test]
fn blit_preserves_wide_char_placeholder() {
    let mut main = make_buf(4, 1, ".");
    let mut sub = make_buf(3, 1, "?");
    sub.cells[0] = Cell {
        text: "漢".to_string(),
        style: CellStyle::empty(),
    };
    sub.cells[1] = Cell {
        text: " ".to_string(),
        style: CellStyle::empty(),
    };
    sub.cells[2] = Cell {
        text: "x".to_string(),
        style: CellStyle::empty(),
    };
    blit_into(&mut main, &sub, 1, 1);
    assert_eq!(main.cells[0].text, "漢");
    assert_eq!(main.cells[1].text, " ");
    assert_eq!(main.cells[2].text, "x");
    assert_eq!(main.cells[3].text, ".");
}

#[test]
fn blit_zero_size_sub_is_noop() {
    let mut main = make_buf(3, 3, ".");
    let before = main.cells.clone();
    let sub = BufferState {
        cols: 0,
        rows: 0,
        cells: Vec::new(),
        cursor_col: 1,
        cursor_row: 1,
        cursor_visible: true,
        row_hashes: None,
    };
    blit_into(&mut main, &sub, 1, 1);
    assert_eq!(main.cells, before);
}

#[test]
fn blit_drops_wide_lead_at_right_edge_when_clipped() {
    let mut main = make_buf(20, 1, ".");
    let mut sub = make_buf(3, 1, "_");
    sub.cells[0] = Cell {
        text: "x".to_string(),
        style: CellStyle::empty(),
    };
    sub.cells[1] = Cell {
        text: "漢".to_string(),
        style: CellStyle::empty(),
    };
    sub.cells[2] = Cell {
        text: " ".to_string(),
        style: CellStyle::empty(),
    };
    blit_into(&mut main, &sub, 19, 1);
    assert_eq!(main.cells[18].text, "x");
    assert_eq!(main.cells[19].text, ".", "wide-char lead must drop");
    for i in (0..main.cells.len()).filter(|i| *i != 18) {
        assert_eq!(
            main.cells[i].text, ".",
            "cell {i} should be untouched by blit"
        );
    }
}

#[test]
fn blit_keeps_wide_lead_when_fully_in_bounds() {
    let mut main = make_buf(20, 1, ".");
    let mut sub = make_buf(3, 1, "_");
    sub.cells[0] = Cell {
        text: "x".to_string(),
        style: CellStyle::empty(),
    };
    sub.cells[1] = Cell {
        text: "漢".to_string(),
        style: CellStyle::empty(),
    };
    sub.cells[2] = Cell {
        text: " ".to_string(),
        style: CellStyle::empty(),
    };
    blit_into(&mut main, &sub, 18, 1);
    assert_eq!(main.cells[17].text, "x");
    assert_eq!(main.cells[18].text, "漢");
    assert_eq!(main.cells[19].text, " ");
}

#[test]
fn blit_right_edge_drop_does_not_affect_unclipped_wide_chars() {
    let mut main = make_buf(4, 1, ".");
    let mut sub = make_buf(5, 1, "_");
    sub.cells[0] = Cell {
        text: "漢".to_string(),
        style: CellStyle::empty(),
    };
    sub.cells[1] = Cell {
        text: " ".to_string(),
        style: CellStyle::empty(),
    };
    sub.cells[2] = Cell {
        text: "a".to_string(),
        style: CellStyle::empty(),
    };
    sub.cells[3] = Cell {
        text: "b".to_string(),
        style: CellStyle::empty(),
    };
    sub.cells[4] = Cell {
        text: "c".to_string(),
        style: CellStyle::empty(),
    };
    blit_into(&mut main, &sub, 1, 1);
    assert_eq!(main.cells[0].text, "漢");
    assert_eq!(main.cells[1].text, " ");
    assert_eq!(main.cells[2].text, "a");
    assert_eq!(main.cells[3].text, "b");
}

#[test]
fn blit_large_over_larger_produces_overlay() {
    let mut main = make_buf(120, 40, ".");
    let sub = make_buf(120, 40, "#");
    blit_into(&mut main, &sub, 1, 1);
    for cell in &main.cells {
        assert_eq!(cell.text, "#");
    }
}
