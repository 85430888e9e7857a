use taida_lang_terminal::renderer::state::{
    diff_kind, err, row_fingerprint, BufferState, Cell, CellStyle, RendererError,
    FNV1A_OFFSET_64, FNV1A_PRIME_64,
};

#[test]
fn cellstyle_empty_is_default() {
    let s = CellStyle::empty();
    assert!(s.is_empty());
    assert_eq!(s.fg, "");
    assert_eq!(s.bg, "");
    assert!(!s.bold);
    assert!(!s.dim);
    assert!(!s.underline);
    assert!(!s.italic);
}

#[test]
fn cellstyle_is_empty_detects_any_field_set() {
    let mut s = CellStyle::empty();
    s.bold = true;
    assert!(!s.is_empty());
    let mut s = CellStyle::empty();
    s.fg = "red".to_string();
    assert!(!s.is_empty());
    let mut s = CellStyle::empty();
    s.bg = "blue".to_string();
    assert!(!s.is_empty());
}

#[test]
fn cell_default_space_is_a_single_space() {
    let c = Cell::default_space();
    assert_eq!(c.text, " ");
    assert!(c.style.is_empty());
}

#[test]
fn buffer_state_cell_index_in_bounds() {
    let buf = BufferState {
        cols: 4,
        rows: 3,
        cells: vec![Cell::default_space(); 12],
        cursor_col: 1,
        cursor_row: 1,
        cursor_visible: true,
        row_hashes: None,
    };
    assert_eq!(buf.cell_index(1, 1), Some(0));
    assert_eq!(buf.cell_index(4, 1), Some(3));
    assert_eq!(buf.cell_index(1, 2), Some(4));
    assert_eq!(buf.cell_index(4, 3), Some(11));
}

#[test]
fn buffer_state_cell_index_out_of_bounds() {
    let buf = BufferState {
        cols: 4,
        rows: 3,
        cells: vec![Cell::default_space(); 12],
        cursor_col: 1,
        cursor_row: 1,
        cursor_visible: true,
        row_hashes: None,
    };
    assert_eq!(buf.cell_index(0, 1), None);
    assert_eq!(buf.cell_index(1, 0), None);
    assert_eq!(buf.cell_index(5, 1), None);
    assert_eq!(buf.cell_index(1, 4), None);
    assert_eq!(buf.cell_index(-1, 1), None);
}

#[test]
fn renderer_error_codes_are_frozen() {
    assert_eq!(err::RENDERER_INVALID_ARG, 6001);
    assert_eq!(err::RENDERER_OUT_OF_BOUNDS, 6002);
    assert_eq!(err::RENDERER_INVALID_SIZE, 6003);
    assert_eq!(err::RENDERER_BUILD_VALUE, 6004);
    assert_eq!(err::RENDERER_PANIC, 6005);
}

#[test]
fn renderer_error_code_mapping() {
    assert_eq!(
        RendererError::InvalidArg("x".into()).code(),
        err::RENDERER_INVALID_ARG
    );
    assert_eq!(
        RendererError::OutOfBounds("x".into()).code(),
        err::RENDERER_OUT_OF_BOUNDS
    );
    assert_eq!(
        RendererError::InvalidSize("x".into()).code(),
        err::RENDERER_INVALID_SIZE
    );
}

#[test]
fn renderer_error_message_format() {
    assert_eq!(
        RendererError::InvalidArg("foo".into()).message(),
        "RendererInvalidArg: foo"
    );
    assert_eq!(
        RendererError::OutOfBounds("bar".into()).message(),
        "RendererOutOfBounds: bar"
    );
    assert_eq!(
        RendererError::InvalidSize("baz".into()).message(),
        "RendererInvalidSize: baz"
    );
}

#[test]
fn row_fingerprint_default_row_is_stable() {
    let row_a = vec![Cell::default_space(); 120];
    let row_b = vec![Cell::default_space(); 120];
    assert_eq!(row_fingerprint(&row_a), row_fingerprint(&row_b));
}

#[test]
fn row_fingerprint_distinguishes_text() {
    let mut row_a = vec![Cell::default_space(); 4];
    let mut row_b = vec![Cell::default_space(); 4];
    row_b[2].text = "X".to_string();
    assert_ne!(row_fingerprint(&row_a), row_fingerprint(&row_b));
    row_a[2].text = "X".to_string();
    assert_eq!(row_fingerprint(&row_a), row_fingerprint(&row_b));
}

#[test]
fn row_fingerprint_distinguishes_style() {
    let row_a = vec![Cell::default_space(); 2];
    let mut row_b = vec![Cell::default_space(); 2];
    row_b[0].style.bold = true;
    assert_ne!(row_fingerprint(&row_a), row_fingerprint(&row_b));

    let mut row_c = vec![Cell::default_space(); 2];
    row_c[1].style.fg = "red".to_string();
    assert_ne!(row_fingerprint(&row_a), row_fingerprint(&row_c));
}

#[test]
fn row_fingerprint_avoids_byte_bleed_between_cells() {
    let cells_a = vec![
        Cell {
            text: "ab".to_string(),
            style: CellStyle::empty(),
        },
        Cell::default_space(),
    ];
    let cells_b = vec![
        Cell {
            text: "a".to_string(),
            style: CellStyle::empty(),
        },
        Cell {
            text: "b".to_string(),
            style: CellStyle::empty(),
        },
    ];
    assert_ne!(row_fingerprint(&cells_a), row_fingerprint(&cells_b));
}

#[test]
fn row_fingerprint_avoids_field_bleed_between_text_and_style() {
    let cells_a = vec![Cell {
        text: "ab".to_string(),
        style: CellStyle::empty(),
    }];
    let cells_b = vec![Cell {
        text: "a".to_string(),
        style: CellStyle {
            fg: "b".to_string(),
            ..CellStyle::empty()
        },
    }];
    assert_ne!(row_fingerprint(&cells_a), row_fingerprint(&cells_b));
}

#[test]
fn compute_row_hashes_populates_one_entry_per_row() {
    let mut buf = BufferState {
        cols: 3,
        rows: 4,
        cells: vec![Cell::default_space(); 12],
        cursor_col: 1,
        cursor_row: 1,
        cursor_visible: true,
        row_hashes: None,
    };
    buf.compute_row_hashes();
    let hashes = buf.row_hashes.as_ref().expect("row_hashes populated");
    assert_eq!(hashes.len(), 4);
    let h0 = hashes[0];
    for h in hashes {
        assert_eq!(*h, h0);
    }
}

#[test]
fn compute_row_hashes_is_idempotent() {
    let mut buf = BufferState {
        cols: 2,
        rows: 2,
        cells: vec![Cell::default_space(); 4],
        cursor_col: 1,
        cursor_row: 1,
        cursor_visible: true,
        row_hashes: None,
    };
    buf.compute_row_hashes();
    let first = buf.row_hashes.clone();
    buf.compute_row_hashes();
    assert_eq!(buf.row_hashes, first);
}

#[test]
fn compute_row_hashes_reflects_cell_change() {
    let mut buf = BufferState {
        cols: 2,
        rows: 3,
        cells: vec![Cell::default_space(); 6],
        cursor_col: 1,
        cursor_row: 1,
        cursor_visible: true,
        row_hashes: None,
    };
    buf.compute_row_hashes();
    let before = buf.row_hashes.clone().expect("populated");
    buf.cells[2].text = "X".to_string();
    buf.compute_row_hashes();
    let after = buf.row_hashes.expect("populated");
    assert_eq!(before[0], after[0]);
    assert_ne!(before[1], after[1]);
    assert_eq!(before[2], after[2]);
}

#[test]
fn compute_row_hashes_handles_zero_dim_buffer() {
    let mut buf = BufferState {
        cols: 0,
        rows: 0,
        cells: Vec::new(),
        cursor_col: 1,
        cursor_row: 1,
        cursor_visible: true,
        row_hashes: None,
    };
    buf.compute_row_hashes();
    assert_eq!(buf.row_hashes, Some(Vec::new()));
}

#[test]
fn fnv1a_constants_are_frozen() {
    assert_eq!(FNV1A_OFFSET_64, 0xcbf2_9ce4_8422_2325);
    assert_eq!(FNV1A_PRIME_64, 0x0000_0100_0000_01b3);
}

#[test]
fn diff_kind_constants_are_frozen() {
    assert_eq!(diff_kind::MOVE_TO, 0);
    assert_eq!(diff_kind::WRITE, 1);
    assert_eq!(diff_kind::CLEAR_LINE, 2);
    assert_eq!(diff_kind::SHOW_CURSOR, 3);
    assert_eq!(diff_kind::HIDE_CURSOR, 4);
}
