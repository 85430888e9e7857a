//! Allocating blank buffers and resizing them, with the cell limit that
//! guards both.

use vstd::prelude::*;

use crate::renderer::state::{
    BufferState, BufferView, Cell, MAX_BUFFER_CELLS, RendererError, lemma_index_in_range,
    space_cell,
};
use crate::text::{decimal, digits_of, push_decimal, push_digits, push_str};

verus! {

/// A fresh buffer of `cols` × `rows` blank cells with the cursor at
/// (1, 1), visible; its row hashes are not yet computed.
pub open spec fn blank_buffer(cols: i64, rows: i64, cursor_col: i64, cursor_row: i64, visible: bool) -> BufferView {
    BufferView {
        cols,
        rows,
        cells: Seq::new((cols * rows) as nat, |i: int| space_cell()),
        cursor_col,
        cursor_row,
        cursor_visible: visible,
        row_hashes: None,
    }
}

/// `b` with its row hashes computed.
pub open spec fn with_hashes(b: BufferView) -> BufferView {
    BufferView { row_hashes: Some(b.row_hashes_of()), ..b }
}

/// `count` blank cells.
fn blank_cells(count: usize) -> (v: Vec<Cell>)
    ensures
        v@.len() == count,
        forall|i: int| 0 <= i < count ==> #[trigger] v@[i]@ == space_cell(),
{
    let mut v: Vec<Cell> = Vec::new();
    let mut i: usize = 0;
    while i < count
        invariant
            i <= count,
            v@.len() == i,
            forall|k: int| 0 <= k < i ==> #[trigger] v@[k]@ == space_cell(),
        decreases count - i,
    {
        v.push(Cell::default_space());
        i = i + 1;
    }
    v
}

/// A blank buffer with the given cursor, hashes computed.
fn make_blank(cols: i64, rows: i64, cursor_col: i64, cursor_row: i64, visible: bool) -> (b: BufferState)
    requires
        cols >= 1,
        rows >= 1,
        cols * rows <= usize::MAX,
    ensures
        b@ == with_hashes(blank_buffer(cols, rows, cursor_col, cursor_row, visible)),
        b@.wf(),
{
    proof {
        lemma_index_in_range(cols as int, rows as int, 1, 1);
    }
    let count: usize = (cols as usize) * (rows as usize);
    let cells = blank_cells(count);
    let mut state = BufferState {
        cols,
        rows,
        cells,
        cursor_col,
        cursor_row,
        cursor_visible: visible,
        row_hashes: None,
    };
    proof {
        assert(count as int == cols * rows);
        assert(state@.cells =~= Seq::new((cols * rows) as nat, |i: int| space_cell()));
        assert(state@ == blank_buffer(cols, rows, cursor_col, cursor_row, visible));
    }
    state.compute_row_hashes();
    state
}

/// A buffer of `cols` × `rows` blank cells (one space, default style),
/// cursor at (1, 1) and visible, row hashes computed.
pub fn buffer_new(cols: i64, rows: i64) -> (b: BufferState)
    requires
        cols >= 1,
        rows >= 1,
        cols * rows <= usize::MAX,
    ensures
        b@ == with_hashes(blank_buffer(cols, rows, 1, 1, true)),
        b@.wf(),
{
    make_blank(cols, rows, 1, 1, true)
}

/// A blank buffer of the new size. Cells are not carried over; the
/// cursor is clamped into the new size and keeps its visibility.
pub fn buffer_resize(prev: &BufferState, cols: i64, rows: i64) -> (b: BufferState)
    requires
        cols >= 1,
        rows >= 1,
        cols * rows <= usize::MAX,
    ensures
        b@ == with_hashes(
            blank_buffer(
                cols,
                rows,
                if prev@.cursor_col > cols { cols } else { prev@.cursor_col },
                if prev@.cursor_row > rows { rows } else { prev@.cursor_row },
                prev@.cursor_visible,
            ),
        ),
        b@.wf(),
{
    let cc = if prev.cursor_col > cols {
        cols
    } else {
        prev.cursor_col
    };
    let cr = if prev.cursor_row > rows {
        rows
    } else {
        prev.cursor_row
    };
    make_blank(cols, rows, cc, cr, prev.cursor_visible)
}

/// The detail of an over-limit error.
pub open spec fn limit_detail(cols: i64, rows: i64) -> Seq<char> {
    "buffer of "@ + decimal(cols as int) + seq!['x'] + decimal(rows as int) + " cells exceeds the "@
        + digits_of(MAX_BUFFER_CELLS as nat) + "-cell limit"@
}

/// Refuses dimensions with more than [`MAX_BUFFER_CELLS`] cells with
/// `InvalidSize`, before anything is allocated.
pub fn check_cell_limit(cols: i64, rows: i64) -> (r: Result<(), RendererError>)
    requires
        cols >= 0,
        rows >= 0,
    ensures
        cols * rows <= MAX_BUFFER_CELLS ==> r is Ok,
        cols * rows > MAX_BUFFER_CELLS ==> (r matches Err(RendererError::InvalidSize(m)) && m@
            == limit_detail(cols, rows)),
{
    proof {
        assert((cols as int) * (rows as int) <= 0x7fff_ffff_ffff_ffff * 0x7fff_ffff_ffff_ffffint)
            by (nonlinear_arith)
            requires
                0 <= cols <= 0x7fff_ffff_ffff_ffff,
                0 <= rows <= 0x7fff_ffff_ffff_ffff,
        ;
    }
    if (cols as u128) * (rows as u128) > MAX_BUFFER_CELLS as u128 {
        let mut m = String::new();
        push_str(&mut m, "buffer of ");
        push_decimal(&mut m, cols);
        crate::text::push_char(&mut m, 'x');
        push_decimal(&mut m, rows);
        push_str(&mut m, " cells exceeds the ");
        push_digits(&mut m, MAX_BUFFER_CELLS);
        push_str(&mut m, "-cell limit");
        proof {
            assert(m@ =~= limit_detail(cols, rows));
        }
        return Err(RendererError::InvalidSize(m));
    }
    Ok(())
}

/// The checks before allocating: both dimensions at least 1 (else
/// `InvalidSize`, columns checked first) and within the cell limit.
pub open spec fn size_error(cols: i64, rows: i64) -> Option<Seq<char>> {
    if cols < 1 {
        Some("cols must be >= 1"@)
    } else if rows < 1 {
        Some("rows must be >= 1"@)
    } else if cols * rows > MAX_BUFFER_CELLS {
        Some(limit_detail(cols, rows))
    } else {
        None
    }
}

/// Whether `r` is `Err(InvalidSize(d))`.
pub open spec fn is_invalid_size(r: Result<BufferState, RendererError>, d: Seq<char>) -> bool {
    match r {
        Err(RendererError::InvalidSize(m)) => m@ == d,
        _ => false,
    }
}

/// Checks the size; then a blank buffer of it.
fn checked_size(cols: i64, rows: i64) -> (r: Result<(), RendererError>)
    ensures
        match size_error(cols, rows) {
            Some(d) => r matches Err(RendererError::InvalidSize(m)) && m@ == d,
            None => r is Ok && 1 <= cols && 1 <= rows && cols * rows <= MAX_BUFFER_CELLS,
        },
{
    if cols < 1 {
        return Err(RendererError::InvalidSize(String::from_str("cols must be >= 1")));
    }
    if rows < 1 {
        return Err(RendererError::InvalidSize(String::from_str("rows must be >= 1")));
    }
    check_cell_limit(cols, rows)
}

/// A new blank buffer, after the size checks.
pub fn buffer_new_checked(cols: i64, rows: i64) -> (r: Result<BufferState, RendererError>)
    ensures
        match size_error(cols, rows) {
            Some(d) => is_invalid_size(r, d),
            None => r matches Ok(b) && b@ == with_hashes(blank_buffer(cols, rows, 1, 1, true)),
        },
{
    match checked_size(cols, rows) {
        Ok(()) => Ok(buffer_new(cols, rows)),
        Err(e) => Err(e),
    }
}

/// `prev` resized to a new blank buffer, after the size checks.
pub fn buffer_resize_checked(prev: &BufferState, cols: i64, rows: i64) -> (r: Result<
    BufferState,
    RendererError,
>)
    ensures
        match size_error(cols, rows) {
            Some(d) => is_invalid_size(r, d),
            None => r matches Ok(b) && b@ == with_hashes(
                blank_buffer(
                    cols,
                    rows,
                    if prev@.cursor_col > cols { cols } else { prev@.cursor_col },
                    if prev@.cursor_row > rows { rows } else { prev@.cursor_row },
                    prev@.cursor_visible,
                ),
            ),
        },
{
    match checked_size(cols, rows) {
        Ok(()) => Ok(buffer_resize(prev, cols, rows)),
        Err(e) => Err(e),
    }
}

} // verus!
