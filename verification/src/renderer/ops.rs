//! Cell operations on a buffer: put one cell, write a string of text,
//! fill a rectangle, clear; and the checked forms behind the buffer
//! entry points.

use vstd::prelude::*;

use crate::renderer::blit::{cell_is_wide_lead, is_wide_lead};
use crate::renderer::state::{
    BufferState, BufferView, Cell, CellStyle, CellView, RendererError, StyleView,
    lemma_index_in_range, space_cell,
};
use crate::text::{chars_of, decimal, one_char, push_decimal, push_str};
pub use crate::width::char_width;
use crate::width::spec_char_width;

verus! {

// ── Specifications ───────────────────────────────────────────────

/// `b` with the cell at index `i` replaced by `c`.
pub open spec fn with_cell(b: BufferView, i: int, c: CellView) -> BufferView {
    BufferView { cells: b.cells.update(i, c), ..b }
}

/// A wide character's lead cell sits just left of the 1-based (`col`,
/// `row`), so that cell is its placeholder.
pub open spec fn seam_lead(b: BufferView, col: int, row: int) -> bool {
    &&& 2 <= col <= b.cols
    &&& 1 <= row <= b.rows
    &&& is_wide_lead(b.cells[pos(b.cols as int, col - 1, row)].text)
}

/// `b` with the lead left of (`col`, `row`) blanked when that cell is a
/// wide character's placeholder: about to be overwritten, it would leave
/// the lead orphaned and the row drawn one column too wide.
pub open spec fn blank_seam_spec(b: BufferView, col: int, row: int) -> BufferView {
    if seam_lead(b, col, row) {
        with_cell(b, pos(b.cols as int, col - 1, row), space_cell())
    } else {
        b
    }
}

/// `b` with no stored row hashes.
pub open spec fn without_hashes(b: BufferView) -> BufferView {
    BufferView { row_hashes: None, ..b }
}

/// Index of the 1-based cell (`c`, `r`) in a buffer `cols` wide.
pub open spec fn pos(cols: int, c: int, r: int) -> int {
    (r - 1) * cols + (c - 1)
}

/// The detail of an out-of-bounds error for (`col`, `row`).
pub open spec fn oob_detail(col: i64, row: i64) -> Seq<char> {
    "col "@ + decimal(col as int) + " row "@ + decimal(row as int) + " out of bounds"@
}

/// Whether `r` is an `OutOfBounds` error with detail `d`.
pub open spec fn is_oob(r: Result<(), RendererError>, d: Seq<char>) -> bool {
    match r {
        Err(RendererError::OutOfBounds(m)) => m@ == d,
        _ => false,
    }
}

/// Cells after writing `s` from column `col` on the row starting at
/// index `base` of a buffer `cols` wide: zero-width scalars are skipped,
/// a wide scalar takes its cell and a one-space placeholder to its right,
/// and writing stops at the first scalar that does not fit or once the
/// right edge is passed.
pub open spec fn write_chars(
    cells: Seq<CellView>,
    base: int,
    cols: int,
    col: int,
    s: Seq<char>,
    style: StyleView,
) -> Seq<CellView>
    decreases s.len(),
{
    if s.len() == 0 {
        cells
    } else {
        let w = spec_char_width(s[0] as u32) as int;
        if w == 0 {
            write_chars(cells, base, cols, col, s.drop_first(), style)
        } else if col + w - 1 > cols {
            cells
        } else {
            let c1 = cells.update(base + col - 1, CellView { text: seq![s[0]], style });
            let c2 = if w == 2 {
                c1.update(base + col, CellView { text: seq![' '], style })
            } else {
                c1
            };
            if col + w > cols {
                c2
            } else {
                write_chars(c2, base, cols, col + w, s.drop_first(), style)
            }
        }
    }
}

/// Whether writing `s` from column `col` of a row `cols` wide places a
/// cell at `col`: its first scalar that is not zero-width fits.
pub open spec fn first_write_fits(s: Seq<char>, col: int, cols: int) -> bool
    decreases s.len(),
{
    if s.len() == 0 {
        false
    } else if spec_char_width(s[0] as u32) == 0 {
        first_write_fits(s.drop_first(), col, cols)
    } else {
        col + spec_char_width(s[0] as u32) - 1 <= cols
    }
}

/// The buffer after [`write_text`]: when the write places a cell at its
/// start, a wide character whose placeholder that cell was is blanked
/// first.
pub open spec fn write_text_spec(
    b: BufferView,
    col: i64,
    row: i64,
    s: Seq<char>,
    style: StyleView,
) -> BufferView {
    if col < 1 || row < 1 || col > b.cols || row > b.rows {
        b
    } else {
        let b1 = if first_write_fits(s, col as int, b.cols as int) {
            blank_seam_spec(b, col as int, row as int)
        } else {
            b
        };
        BufferView {
            cells: write_chars(b1.cells, (row - 1) * b.cols, b.cols as int, col as int, s, style),
            ..b
        }
    }
}

/// Whether the 1-based cell (`c`, `r`) lies in the clamped rectangle of
/// [`fill_rect`].
pub open spec fn in_fill(b: BufferView, col0: i64, row0: i64, width: i64, height: i64, c: int, r: int) -> bool {
    &&& width >= 1 && height >= 1
    &&& col0 <= b.cols && row0 <= b.rows
    &&& col0 <= c < col0 + width
    &&& row0 <= r < row0 + height
}

/// Whether the 1-based cell (`c`, `r`) is the lead of a wide character
/// whose placeholder the fill of [`fill_rect`] overwrites: the column
/// just left of the rectangle, on one of its rows.
pub open spec fn fill_seam(b: BufferView, col0: i64, row0: i64, width: i64, height: i64, c: int, r: int) -> bool {
    &&& width >= 1 && height >= 1
    &&& col0 <= b.cols && row0 <= b.rows
    &&& c == col0 - 1 && c >= 1
    &&& row0 <= r < row0 + height
    &&& is_wide_lead(b.cells[pos(b.cols as int, c, r)].text)
}

/// What the 1-based cell (`c`, `r`) holds after [`fill_rect`]: `fill`
/// inside the rectangle, a blank where a wide character lost its
/// placeholder to the fill, else what it held.
pub open spec fn fill_value(
    b: BufferView,
    fill: CellView,
    col0: i64,
    row0: i64,
    width: i64,
    height: i64,
    c: int,
    r: int,
) -> CellView {
    if in_fill(b, col0, row0, width, height, c, r) {
        fill
    } else if fill_seam(b, col0, row0, width, height, c, r) {
        space_cell()
    } else {
        b.cells[pos(b.cols as int, c, r)]
    }
}

/// `after` is `before` filled as [`fill_rect`] fills: only the cells
/// change, each to its `fill_value`.
pub open spec fn fill_update(
    before: BufferView,
    after: BufferView,
    fill: CellView,
    col0: i64,
    row0: i64,
    width: i64,
    height: i64,
) -> bool {
    &&& after == BufferView { cells: after.cells, ..before }
    &&& after.cells.len() == before.cells.len()
    &&& forall|c: int, r: int|
        1 <= c <= before.cols && 1 <= r <= before.rows ==> #[trigger] after.cells[pos(
            before.cols as int,
            c,
            r,
        )] == fill_value(before, fill, col0, row0, width, height, c, r)
}

// ── Grid arithmetic ──────────────────────────────────────────────

/// Distinct cells have distinct indices.
pub proof fn lemma_pos_injective(cols: int, rows: int, c1: int, r1: int, c2: int, r2: int)
    requires
        1 <= c1 <= cols,
        1 <= c2 <= cols,
        1 <= r1 <= rows,
        1 <= r2 <= rows,
        pos(cols, c1, r1) == pos(cols, c2, r2),
    ensures
        c1 == c2 && r1 == r2,
{
    if r1 < r2 {
        assert((r2 - 1) * cols >= (r1 - 1) * cols + cols) by (nonlinear_arith)
            requires
                r2 >= r1 + 1,
                cols >= 0,
        ;
    } else if r2 < r1 {
        assert((r1 - 1) * cols >= (r2 - 1) * cols + cols) by (nonlinear_arith)
            requires
                r1 >= r2 + 1,
                cols >= 0,
        ;
    }
}

/// Replacing the cell at (`c`, `r`) leaves every other cell in place.
pub proof fn lemma_grid_put(
    before: Seq<CellView>,
    after: Seq<CellView>,
    cols: int,
    rows: int,
    c: int,
    r: int,
    v: CellView,
)
    requires
        before.len() == cols * rows,
        1 <= c <= cols,
        1 <= r <= rows,
        after == before.update(pos(cols, c, r), v),
    ensures
        after.len() == before.len(),
        forall|cc: int, rr: int|
            1 <= cc <= cols && 1 <= rr <= rows ==> #[trigger] after[pos(cols, cc, rr)] == if cc
                == c && rr == r {
                v
            } else {
                before[pos(cols, cc, rr)]
            },
{
    lemma_index_in_range(cols, rows, c, r);
    assert forall|cc: int, rr: int| 1 <= cc <= cols && 1 <= rr <= rows implies #[trigger] after[pos(
        cols,
        cc,
        rr,
    )] == if cc == c && rr == r {
        v
    } else {
        before[pos(cols, cc, rr)]
    } by {
        lemma_index_in_range(cols, rows, cc, rr);
        if pos(cols, cc, rr) == pos(cols, c, r) {
            lemma_pos_injective(cols, rows, cc, rr, c, r);
        }
    }
}

// ── Operations ───────────────────────────────────────────────────

/// Blanks the lead cell left of the 1-based (`col`, `row`) when that
/// cell is a wide character's placeholder (see `blank_seam_spec`).
pub fn blank_seam(buf: &mut BufferState, col: i64, row: i64)
    requires
        old(buf)@.wf(),
    ensures
        final(buf)@ == blank_seam_spec(old(buf)@, col as int, row as int),
        final(buf)@.cells.len() == old(buf)@.cells.len(),
{
    if col < 2 || col > buf.cols || row < 1 || row > buf.rows {
        return;
    }
    let n = buf.cells.len();
    proof {
        lemma_index_in_range(buf.cols as int, buf.rows as int, (col - 1) as int, row as int);
    }
    let idx: usize = ((row - 1) as usize) * (buf.cols as usize) + ((col - 2) as usize);
    if cell_is_wide_lead(buf.cells[idx].text.as_str()) {
        buf.cells.set(idx, Cell::default_space());
        proof {
            assert(buf@.cells =~= old(buf)@.cells.update(idx as int, space_cell()));
        }
    }
}

/// Stores `cell` at the 1-based (`col`, `row`), first blanking the wide
/// character whose placeholder it overwrites, or reports `OutOfBounds`
/// and leaves the buffer unchanged.
pub fn put_cell(buf: &mut BufferState, col: i64, row: i64, cell: Cell) -> (r: Result<(), RendererError>)
    requires
        old(buf)@.wf(),
    ensures
        match old(buf)@.index_of(col, row) {
            Some(i) => r is Ok && final(buf)@ == with_cell(
                blank_seam_spec(old(buf)@, col as int, row as int),
                i,
                cell@,
            ),
            None => is_oob(r, oob_detail(col, row)) && final(buf)@ == old(buf)@,
        },
{
    match buf.cell_index(col, row) {
        Some(idx) => {
            let ghost b0 = buf@;
            blank_seam(buf, col, row);
            proof {
                assert(buf@ == blank_seam_spec(b0, col as int, row as int));
                assert(buf@.cells.len() == b0.cells.len());
                assert(buf.cells@.len() == buf@.cells.len());
            }
            buf.cells.set(idx, cell);
            proof {
                assert(buf@.cells =~= blank_seam_spec(b0, col as int, row as int).cells.update(
                    idx as int,
                    cell@,
                ));
            }
            Ok(())
        },
        None => Err(RendererError::OutOfBounds(oob_message(col, row))),
    }
}

/// The detail of an out-of-bounds error for (`col`, `row`).
fn oob_message(col: i64, row: i64) -> (m: String)
    ensures
        m@ == oob_detail(col, row),
{
    let mut m = String::new();
    push_str(&mut m, "col ");
    push_decimal(&mut m, col);
    push_str(&mut m, " row ");
    push_decimal(&mut m, row);
    push_str(&mut m, " out of bounds");
    m
}

/// Stores `cell` at the 1-based (`col`, `row`), which must lie inside.
pub fn put_cell_unchecked(buf: &mut BufferState, col: i64, row: i64, cell: Cell)
    requires
        old(buf)@.wf(),
        1 <= col <= old(buf)@.cols,
        1 <= row <= old(buf)@.rows,
    ensures
        final(buf)@ == with_cell(old(buf)@, pos(old(buf)@.cols as int, col as int, row as int), cell@),
{
    let n = buf.cells.len();
    proof {
        lemma_index_in_range(buf.cols as int, buf.rows as int, col as int, row as int);
    }
    let idx: usize = ((row - 1) as usize) * (buf.cols as usize) + ((col - 1) as usize);
    buf.cells.set(idx, cell);
    proof {
        assert(buf@.cells =~= old(buf)@.cells.update(idx as int, cell@));
    }
}

/// Whether writing `chars` from column `col` places a cell at `col`.
fn starts_with_fitting_char(chars: &Vec<char>, col: i64, cols: i64) -> (b: bool)
    ensures
        b == first_write_fits(chars@, col as int, cols as int),
{
    let mut i: usize = 0;
    proof {
        assert(chars@.skip(0) =~= chars@);
    }
    while i < chars.len()
        invariant
            i <= chars@.len(),
            first_write_fits(chars@.skip(i as int), col as int, cols as int) == first_write_fits(
                chars@,
                col as int,
                cols as int,
            ),
        decreases chars@.len() - i,
    {
        let w = char_width(chars[i] as u32);
        proof {
            assert(chars@.skip(i as int)[0] == chars@[i as int]);
            assert(chars@.skip(i as int).drop_first() =~= chars@.skip(i + 1));
        }
        if w != 0 {
            return (col as i128) + (w as i128) - 1 <= (cols as i128);
        }
        i = i + 1;
    }
    proof {
        assert(chars@.skip(i as int) =~= Seq::<char>::empty());
    }
    false
}

/// Writes `text` from the 1-based (`col`, `row`) rightwards with `style`.
/// Zero-width scalars are skipped; a wide scalar fills two cells, the
/// second holding a one-space placeholder; a scalar that does not fit
/// before the right edge ends the write (nothing wraps). A start outside
/// the buffer writes nothing. When the write places a cell at its start
/// and that cell was a wide character's placeholder, the character is
/// blanked so no orphaned half is left.
pub fn write_text(buf: &mut BufferState, col: i64, row: i64, text: &str, style: &CellStyle)
    requires
        old(buf)@.wf(),
    ensures
        final(buf)@ == write_text_spec(old(buf)@, col, row, text@, style@),
{
    if col < 1 || row < 1 || col > buf.cols || row > buf.rows {
        return;
    }
    let chars = chars_of(text);
    if starts_with_fitting_char(&chars, col, buf.cols) {
        blank_seam(buf, col, row);
    }
    proof {
        assert(buf@.cols == old(buf)@.cols && buf@.rows == old(buf)@.rows);
        assert(buf@.cells.len() == old(buf)@.cells.len());
        assert(buf@.wf());
    }
    let n = buf.cells.len();
    proof {
        lemma_index_in_range(buf.cols as int, buf.rows as int, col as int, row as int);
        lemma_index_in_range(buf.cols as int, buf.rows as int, buf.cols as int, row as int);
    }
    let ghost b0 = buf@;
    let ghost base: int = (row - 1) * buf.cols;
    let ghost target = write_chars(b0.cells, base, b0.cols as int, col as int, text@, style@);
    let cols = buf.cols;
    let rowbase: usize = ((row - 1) as usize) * (cols as usize);
    let mut cur: i64 = col;
    let mut i: usize = 0;
    let mut done = false;
    proof {
        assert(chars@.skip(0) =~= chars@);
    }
    while i < chars.len() && !done
        invariant
            chars@ == text@,
            buf@.wf(),
            n == buf@.cells.len(),
            buf@ == (BufferView { cells: buf@.cells, ..b0 }),
            cols == b0.cols,
            rowbase == base,
            base + cols <= n,
            0 <= base,
            1 <= cur <= cols,
            i <= chars@.len(),
            !done ==> write_chars(buf@.cells, base, cols as int, cur as int, chars@.skip(i as int), style@) == target,
            done ==> buf@.cells == target,
        decreases chars@.len() - i, (if done { 0int } else { 1int }),
    {
        let c = chars[i];
        let w = char_width(c as u32);
        let ghost rest = chars@.skip(i as int);
        proof {
            assert(rest[0] == c);
            assert(rest.drop_first() =~= chars@.skip(i + 1));
        }
        if w == 0 {
            i = i + 1;
        } else if (cur as i128) + (w as i128) - 1 > (cols as i128) {
            done = true;
        } else {
            let ghost before = buf@.cells;
            let idx: usize = rowbase + ((cur - 1) as usize);
            buf.cells.set(idx, Cell { text: one_char(c), style: style.duplicate() });
            if w == 2 {
                buf.cells.set(idx + 1, Cell { text: one_char(' '), style: style.duplicate() });
            }
            proof {
                let c1 = before.update(base + cur - 1, CellView { text: seq![c], style: style@ });
                let c2 = if w == 2 {
                    c1.update(base + cur, CellView { text: seq![' '], style: style@ })
                } else {
                    c1
                };
                assert(buf@.cells =~= c2);
            }
            if (cur as i128) + (w as i128) > (cols as i128) {
                done = true;
            } else {
                cur = cur + (w as i64);
            }
            i = i + 1;
        }
    }
    proof {
        if !done {
            assert(chars@.skip(i as int) =~= Seq::<char>::empty());
        }
    }
}

/// Fills the rectangle of `width` × `height` cells whose top-left corner
/// is the 1-based (`col0`, `row0`) with copies of `cell`, clamped at the
/// right and bottom edges. An empty size or a corner past the edges
/// fills nothing. A wide character just left of the rectangle, whose
/// placeholder the fill overwrites, is blanked.
pub fn fill_rect(buf: &mut BufferState, col0: i64, row0: i64, width: i64, height: i64, cell: &Cell)
    requires
        old(buf)@.wf(),
        col0 >= 1,
        row0 >= 1,
    ensures
        fill_update(old(buf)@, final(buf)@, cell@, col0, row0, width, height),
{
    let ghost b0 = buf@;
    if width < 1 || height < 1 || col0 > buf.cols || row0 > buf.rows {
        return;
    }
    let n = buf.cells.len();
    proof {
        lemma_index_in_range(buf.cols as int, buf.rows as int, col0 as int, row0 as int);
    }
    let cols: i128 = buf.cols as i128;
    let rows: i128 = buf.rows as i128;
    let end_col: i128 = if (col0 as i128) + (width as i128) < cols + 1 {
        (col0 as i128) + (width as i128)
    } else {
        cols + 1
    };
    let end_row: i128 = if (row0 as i128) + (height as i128) < rows + 1 {
        (row0 as i128) + (height as i128)
    } else {
        rows + 1
    };
    let mut r: i128 = row0 as i128;
    while r < end_row
        invariant
            buf@.wf(),
            n == buf@.cells.len(),
            buf@ == (BufferView { cells: buf@.cells, ..b0 }),
            cols == b0.cols,
            rows == b0.rows,
            1 <= col0 <= b0.cols,
            1 <= row0 <= r <= end_row <= b0.rows + 1,
            col0 < end_col <= b0.cols + 1,
            end_col == (if col0 + width < b0.cols + 1 { col0 + width } else { b0.cols + 1 }),
            end_row == (if row0 + height < b0.rows + 1 { row0 + height } else { b0.rows + 1 }),
            width >= 1,
            height >= 1,
            forall|c: int, rr: int|
                1 <= c <= b0.cols && 1 <= rr <= b0.rows ==> #[trigger] buf@.cells[pos(
                    b0.cols as int,
                    c,
                    rr,
                )] == if rr < r {
                    fill_value(b0, cell@, col0, row0, width, height, c, rr)
                } else {
                    b0.cells[pos(b0.cols as int, c, rr)]
                },
        decreases end_row - r,
    {
        if col0 >= 2 {
            proof {
                lemma_index_in_range(b0.cols as int, b0.rows as int, (col0 - 1) as int, r as int);
            }
            let lead: usize = ((r - 1) as usize) * (cols as usize) + ((col0 - 2) as usize);
            proof {
                assert(lead as int == pos(b0.cols as int, col0 - 1, r as int));
                assert(buf@.cells[lead as int] == b0.cells[lead as int]);
            }
            if cell_is_wide_lead(buf.cells[lead].text.as_str()) {
                let ghost before = buf@;
                put_cell_unchecked(buf, col0 - 1, r as i64, Cell::default_space());
                proof {
                    lemma_grid_put(
                        before.cells,
                        buf@.cells,
                        b0.cols as int,
                        b0.rows as int,
                        col0 - 1,
                        r as int,
                        space_cell(),
                    );
                }
            }
        }
        let ghost row_start = buf@;
        proof {
            assert forall|cc: int, rr: int|
                1 <= cc <= b0.cols && 1 <= rr <= b0.rows implies #[trigger] buf@.cells[pos(
                    b0.cols as int,
                    cc,
                    rr,
                )] == if rr < r || (rr == r && !in_fill(b0, col0, row0, width, height, cc, rr)) {
                    fill_value(b0, cell@, col0, row0, width, height, cc, rr)
                } else {
                    b0.cells[pos(b0.cols as int, cc, rr)]
                } by {
                if rr == r && cc == col0 - 1 && col0 >= 2 {
                    assert(pos(b0.cols as int, cc, rr) == pos(b0.cols as int, col0 - 1, r as int));
                }
            }
        }
        let mut c: i128 = col0 as i128;
        while c < end_col
            invariant
                buf@.wf(),
                n == buf@.cells.len(),
                buf@ == (BufferView { cells: buf@.cells, ..b0 }),
                cols == b0.cols,
                rows == b0.rows,
                1 <= col0 <= c <= end_col <= b0.cols + 1,
                1 <= row0 <= r < end_row <= b0.rows + 1,
                end_col == (if col0 + width < b0.cols + 1 { col0 + width } else { b0.cols + 1 }),
                end_row == (if row0 + height < b0.rows + 1 { row0 + height } else { b0.rows + 1 }),
                width >= 1,
                height >= 1,
                forall|cc: int, rr: int|
                    1 <= cc <= b0.cols && 1 <= rr <= b0.rows ==> #[trigger] buf@.cells[pos(
                        b0.cols as int,
                        cc,
                        rr,
                    )] == if rr < r || (rr == r && (cc < c || !in_fill(b0, col0, row0, width, height, cc, rr))) {
                        fill_value(b0, cell@, col0, row0, width, height, cc, rr)
                    } else {
                        b0.cells[pos(b0.cols as int, cc, rr)]
                    },
            decreases end_col - c,
        {
            let ghost before = buf@;
            proof {
                lemma_index_in_range(b0.cols as int, b0.rows as int, c as int, r as int);
            }
            put_cell_unchecked(buf, c as i64, r as i64, cell.duplicate());
            proof {
                lemma_grid_put(
                    before.cells,
                    buf@.cells,
                    b0.cols as int,
                    b0.rows as int,
                    c as int,
                    r as int,
                    cell@,
                );
                assert forall|cc: int, rr: int|
                    1 <= cc <= b0.cols && 1 <= rr <= b0.rows implies #[trigger] buf@.cells[pos(
                        b0.cols as int,
                        cc,
                        rr,
                    )] == if rr < r || (rr == r && (cc < c + 1 || !in_fill(b0, col0, row0, width, height, cc, rr))) {
                        fill_value(b0, cell@, col0, row0, width, height, cc, rr)
                    } else {
                        b0.cells[pos(b0.cols as int, cc, rr)]
                    } by {
                    assert(before.cells[pos(b0.cols as int, cc, rr)] == (if rr < r || (rr == r && (cc < c || !in_fill(b0, col0, row0, width, height, cc, rr))) {
                        fill_value(b0, cell@, col0, row0, width, height, cc, rr)
                    } else {
                        b0.cells[pos(b0.cols as int, cc, rr)]
                    }));
                }
            }
            c = c + 1;
        }
        proof {
            assert forall|cc: int, rr: int|
                1 <= cc <= b0.cols && 1 <= rr <= b0.rows implies #[trigger] buf@.cells[pos(
                    b0.cols as int,
                    cc,
                    rr,
                )] == if rr < r + 1 {
                    fill_value(b0, cell@, col0, row0, width, height, cc, rr)
                } else {
                    b0.cells[pos(b0.cols as int, cc, rr)]
                } by {
                if rr == r && in_fill(b0, col0, row0, width, height, cc, rr) {
                    assert(cc < c);
                }
            }
        }
        r = r + 1;
    }
    proof {
        assert forall|c: int, rr: int|
            1 <= c <= b0.cols && 1 <= rr <= b0.rows implies #[trigger] buf@.cells[pos(
                b0.cols as int,
                c,
                rr,
            )] == fill_value(b0, cell@, col0, row0, width, height, c, rr) by {
            if rr >= r {
                assert(!in_fill(b0, col0, row0, width, height, c, rr));
                assert(!fill_seam(b0, col0, row0, width, height, c, rr));
            }
        }
    }
}

/// Replaces every cell with a copy of `fill`.
pub fn clear_buffer(buf: &mut BufferState, fill: &Cell)
    ensures
        final(buf)@ == (BufferView { cells: Seq::new(old(buf)@.cells.len(), |i: int| fill@), ..old(buf)@ }),
{
    let ghost b0 = buf@;
    let mut i: usize = 0;
    while i < buf.cells.len()
        invariant
            buf@ == (BufferView { cells: buf@.cells, ..b0 }),
            buf@.cells.len() == b0.cells.len(),
            i <= buf@.cells.len(),
            forall|k: int| 0 <= k < i ==> buf@.cells[k] == fill@,
            forall|k: int| i <= k < buf@.cells.len() ==> buf@.cells[k] == b0.cells[k],
        decreases buf@.cells.len() - i,
    {
        let ghost before = buf@.cells;
        buf.cells.set(i, fill.duplicate());
        proof {
            assert(buf@.cells =~= before.update(i as int, fill@));
        }
        i = i + 1;
    }
    proof {
        assert(buf@.cells =~= Seq::new(b0.cells.len(), |i: int| fill@));
    }
}

// ── Checked forms ────────────────────────────────────────────────

/// Puts `cell` at (`col`, `row`) and drops the stored row hashes, or
/// reports `OutOfBounds` when the cell lies outside.
pub fn buffer_put(buf: BufferState, col: i64, row: i64, cell: Cell) -> (r: Result<BufferState, RendererError>)
    requires
        buf@.wf(),
    ensures
        match buf@.index_of(col, row) {
            Some(i) => r matches Ok(b) && b@ == without_hashes(
                with_cell(blank_seam_spec(buf@, col as int, row as int), i, cell@),
            ),
            None => r matches Err(RendererError::OutOfBounds(m)) && m@ == oob_detail(col, row),
        },
{
    let mut buf = buf;
    match put_cell(&mut buf, col, row, cell) {
        Ok(()) => {
            buf.row_hashes = None;
            Ok(buf)
        },
        Err(e) => Err(e),
    }
}

/// Writes `text` from (`col`, `row`) and drops the stored row hashes, or
/// reports `OutOfBounds` when the start lies outside.
pub fn buffer_write(buf: BufferState, col: i64, row: i64, text: &str, style: &CellStyle) -> (r: Result<
    BufferState,
    RendererError,
>)
    requires
        buf@.wf(),
    ensures
        match buf@.index_of(col, row) {
            Some(i) => r matches Ok(b) && b@ == without_hashes(
                write_text_spec(buf@, col, row, text@, style@),
            ),
            None => r matches Err(RendererError::OutOfBounds(m)) && m@ == oob_detail(col, row),
        },
{
    let mut buf = buf;
    if buf.cell_index(col, row).is_none() {
        return Err(RendererError::OutOfBounds(oob_message(col, row)));
    }
    write_text(&mut buf, col, row, text, style);
    buf.row_hashes = None;
    Ok(buf)
}

/// Fills a rectangle and drops the stored row hashes; a corner left of
/// or above the buffer is `OutOfBounds`.
pub fn buffer_fill_rect(buf: BufferState, col: i64, row: i64, width: i64, height: i64, cell: &Cell) -> (r:
    Result<BufferState, RendererError>)
    requires
        buf@.wf(),
    ensures
        col < 1 ==> (r matches Err(RendererError::OutOfBounds(m)) && m@ == "col out of bounds"@),
        col >= 1 && row < 1 ==> (r matches Err(RendererError::OutOfBounds(m)) && m@
            == "row out of bounds"@),
        col >= 1 && row >= 1 ==> (r matches Ok(b) && b@.row_hashes is None && fill_update(
            buf@,
            BufferView { row_hashes: buf@.row_hashes, ..b@ },
            cell@,
            col,
            row,
            width,
            height,
        )),
{
    let mut buf = buf;
    if col < 1 {
        return Err(RendererError::OutOfBounds(String::from_str("col out of bounds")));
    }
    if row < 1 {
        return Err(RendererError::OutOfBounds(String::from_str("row out of bounds")));
    }
    fill_rect(&mut buf, col, row, width, height, cell);
    buf.row_hashes = None;
    Ok(buf)
}

/// Replaces every cell with `fill` and drops the stored row hashes.
pub fn buffer_clear(buf: BufferState, fill: &Cell) -> (b: BufferState)
    ensures
        b@ == without_hashes(BufferView { cells: Seq::new(buf@.cells.len(), |i: int| fill@), ..buf@ }),
{
    let mut buf = buf;
    clear_buffer(&mut buf, fill);
    buf.row_hashes = None;
    buf
}

/// What a fill does, cell by cell: inside the rectangle (clamped at the
/// right and bottom edges) every cell becomes an exact copy of the fill
/// cell, text and style alike; the only other cell that can change is
/// the lead of a wide character just left of the rectangle, which
/// becomes a blank space; all the rest keep what they held, and the
/// buffer keeps its size and cursor.
pub proof fn law_fill_copies_the_cell(
    before: BufferView,
    after: BufferView,
    fill: CellView,
    col0: i64,
    row0: i64,
    width: i64,
    height: i64,
    c: int,
    r: int,
)
    requires
        fill_update(before, after, fill, col0, row0, width, height),
        1 <= c <= before.cols,
        1 <= r <= before.rows,
    ensures
        after.cols == before.cols && after.rows == before.rows && after.cursor_col == before.cursor_col
            && after.cursor_row == before.cursor_row && after.cursor_visible == before.cursor_visible,
        width >= 1 && height >= 1 && col0 <= c < col0 + width && row0 <= r < row0 + height
            ==> after.cells[pos(before.cols as int, c, r)] == fill,
        after.cells[pos(before.cols as int, c, r)] != before.cells[pos(before.cols as int, c, r)]
            && !(width >= 1 && height >= 1 && col0 <= c < col0 + width && row0 <= r < row0 + height)
            ==> c == col0 - 1 && after.cells[pos(before.cols as int, c, r)] == (CellView {
            text: seq![' '],
            style: StyleView {
                fg: Seq::empty(),
                bg: Seq::empty(),
                bold: false,
                dim: false,
                underline: false,
                italic: false,
            },
        }),
{
    assert(after.cells[pos(before.cols as int, c, r)] == fill_value(before, fill, col0, row0, width, height, c, r));
}

} // verus!
