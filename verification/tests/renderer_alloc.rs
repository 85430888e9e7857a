use std::time::Instant;
use taida_lang_terminal::renderer::allocation::{buffer_new, buffer_resize, check_cell_limit};
use taida_lang_terminal::renderer::state::{self, RendererError};

#[test]
fn check_cell_limit_rejects_pathological_dimensions() {
    assert!(check_cell_limit(2000, 2000).is_ok());
    assert!(check_cell_limit(state::MAX_BUFFER_CELLS as i64, 1).is_ok());
    assert!(matches!(
        check_cell_limit(2001, 2000),
        Err(RendererError::InvalidSize(_))
    ));
    assert!(matches!(
        check_cell_limit(1_000_000, 1_000_000),
        Err(RendererError::InvalidSize(_))
    ));
}

#[test]
fn buffer_new_1x1_has_one_default_cell() {
    let buf = buffer_new(1, 1);
    assert_eq!(buf.cols, 1);
    assert_eq!(buf.rows, 1);
    assert_eq!(buf.cells.len(), 1);
    assert_eq!(buf.cells[0].text, " ");
    assert!(buf.cells[0].style.is_empty());
    assert_eq!(buf.cursor_col, 1);
    assert_eq!(buf.cursor_row, 1);
    assert!(buf.cursor_visible);
}

#[test]
fn buffer_new_40x20_has_800_default_cells() {
    let buf = buffer_new(40, 20);
    assert_eq!(buf.cols, 40);
    assert_eq!(buf.rows, 20);
    assert_eq!(buf.cells.len(), 800);
    for c in &buf.cells {
        assert_eq!(c.text, " ");
        assert!(c.style.is_empty());
    }
}

#[test]
fn buffer_new_120x40_has_4800_default_cells() {
    let buf = buffer_new(120, 40);
    assert_eq!(buf.cells.len(), 4800);
    assert_eq!(buf.cells[0].text, " ");
    assert_eq!(buf.cells[2399].text, " ");
    assert_eq!(buf.cells[4799].text, " ");
}

#[test]
fn buffer_new_populates_row_hashes() {
    let buf = buffer_new(4, 3);
    let hashes = buf.row_hashes.as_ref().expect("row_hashes must be Some");
    assert_eq!(hashes.len(), 3);
    assert_eq!(hashes[0], hashes[1]);
    assert_eq!(hashes[1], hashes[2]);
}

#[test]
fn buffer_resize_to_bigger_clamps_cursor_noop() {
    let prev = buffer_new(5, 5);
    let next = buffer_resize(&prev, 10, 10);
    assert_eq!(next.cols, 10);
    assert_eq!(next.rows, 10);
    assert_eq!(next.cells.len(), 100);
    assert_eq!(next.cursor_col, 1);
    assert_eq!(next.cursor_row, 1);
    assert!(next.cursor_visible);
}

#[test]
fn buffer_resize_to_smaller_clamps_cursor() {
    let mut prev = buffer_new(10, 10);
    prev.cursor_col = 8;
    prev.cursor_row = 7;
    prev.cursor_visible = false;
    let next = buffer_resize(&prev, 4, 3);
    assert_eq!(next.cols, 4);
    assert_eq!(next.rows, 3);
    assert_eq!(next.cells.len(), 12);
    assert_eq!(next.cursor_col, 4, "cursor_col must clamp to new cols");
    assert_eq!(next.cursor_row, 3, "cursor_row must clamp to new rows");
    assert!(!next.cursor_visible, "cursor_visible must be preserved");
}

#[test]
fn buffer_resize_cells_are_all_default() {
    let mut prev = buffer_new(3, 3);
    prev.cells[0].text = "X".to_string();
    let next = buffer_resize(&prev, 4, 4);
    for c in &next.cells {
        assert_eq!(c.text, " ");
        assert!(c.style.is_empty());
    }
}

#[test]
fn buffer_resize_populates_row_hashes() {
    let prev = buffer_new(2, 2);
    let next = buffer_resize(&prev, 3, 4);
    let hashes = next.row_hashes.as_ref().expect("row_hashes must be Some");
    assert_eq!(hashes.len(), 4);
}

#[test]
fn buffer_new_scales_linearly_in_cells() {
    let t_small = Instant::now();
    for _ in 0..50 {
        let _ = buffer_new(10, 10);
    }
    let small = t_small.elapsed();

    let t_large = Instant::now();
    for _ in 0..50 {
        let _ = buffer_new(40, 40);
    }
    let large = t_large.elapsed();

    let ratio = large.as_nanos() as f64 / small.as_nanos().max(1) as f64;
    assert!(
        ratio < 50.0,
        "buffer_new appears super-linear: 1600-cell/100-cell ratio = {ratio:.1}× \
         (linear target ≈ 16×, quadratic target ≈ 256×). \
         small={small:?}, large={large:?}"
    );
}
