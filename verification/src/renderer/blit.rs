//! Copying one buffer's cells into another at an offset.

use vstd::prelude::*;

use crate::renderer::ops::{lemma_grid_put, pos};
use crate::renderer::state::{
    BufferState, BufferView, Cell, CellView, RendererError, lemma_index_in_range, space_cell,
};
use crate::text::{decimal, push_decimal, push_str};
use crate::width::{char_width, spec_char_width};

verus! {

/// The first scalar of `text` is a wide character (width 2).
pub open spec fn is_wide_lead(text: Seq<char>) -> bool {
    text.len() > 0 && spec_char_width(text[0] as u32) == 2
}

/// Whether a cell's text starts with a wide character, i.e. the cell is
/// the left half of a two-cell character.
pub fn cell_is_wide_lead(text: &str) -> (b: bool)
    ensures
        b == is_wide_lead(text@),
{
    let chars = crate::text::chars_of(text);
    if chars.len() == 0 {
        return false;
    }
    char_width(chars[0] as u32) == 2
}

/// Rows copied: the sub-buffer's height, clipped at the bottom edge.
pub open spec fn blit_height(main: BufferView, sub: BufferView, row: i64) -> int {
    if sub.rows < main.rows - row + 1 {
        sub.rows as int
    } else {
        main.rows - row + 1
    }
}

/// Columns copied before the wide-character rule: the sub-buffer's
/// width, clipped at the right edge.
pub open spec fn blit_width(main: BufferView, sub: BufferView, col: i64) -> int {
    if sub.cols < main.cols - col + 1 {
        sub.cols as int
    } else {
        main.cols - col + 1
    }
}

/// Columns copied from the 0-based sub row `dr`: when the right edge
/// clips the row and its last copied cell is the left half of a wide
/// character, that cell is left out too, so no half character is drawn.
pub open spec fn row_copy_width(main: BufferView, sub: BufferView, col: i64, dr: int) -> int {
    let w = blit_width(main, sub, col);
    if w < sub.cols && is_wide_lead(sub.cells[dr * sub.cols + w - 1].text) {
        w - 1
    } else {
        w
    }
}

/// Whether the main buffer's 1-based cell (`c`, `r`) receives a cell of
/// `sub` placed with its top-left corner at (`col`, `row`).
pub open spec fn in_blit(main: BufferView, sub: BufferView, col: i64, row: i64, c: int, r: int) -> bool {
    &&& sub.cols >= 1 && sub.rows >= 1
    &&& col <= main.cols && row <= main.rows
    &&& row <= r < row + blit_height(main, sub, row)
    &&& col <= c < col + row_copy_width(main, sub, col, r - row)
}

/// The cell of `sub` that lands on the main buffer's (`c`, `r`).
pub open spec fn blit_source(sub: BufferView, col: i64, row: i64, c: int, r: int) -> CellView {
    sub.cells[pos(sub.cols as int, c - col + 1, r - row + 1)]
}

/// Whether the main buffer's 1-based cell (`c`, `r`) is the lead of a
/// wide character whose placeholder the copy overwrites: the column just
/// left of `col`, on a row that receives at least one cell.
pub open spec fn blit_seam(main: BufferView, sub: BufferView, col: i64, row: i64, c: int, r: int) -> bool {
    &&& sub.cols >= 1 && sub.rows >= 1
    &&& col <= main.cols && row <= main.rows
    &&& row <= r < row + blit_height(main, sub, row)
    &&& row_copy_width(main, sub, col, r - row) >= 1
    &&& c == col - 1 && c >= 1
    &&& is_wide_lead(main.cells[pos(main.cols as int, c, r)].text)
}

/// What the main buffer's cell (`c`, `r`) holds after the copy: the
/// cell of `sub` that lands there, a blank where a wide character lost
/// its placeholder to the copy, else what it held.
pub open spec fn blit_value(main: BufferView, sub: BufferView, col: i64, row: i64, c: int, r: int) -> CellView {
    if in_blit(main, sub, col, row, c, r) {
        blit_source(sub, col, row, c, r)
    } else if blit_seam(main, sub, col, row, c, r) {
        space_cell()
    } else {
        main.cells[pos(main.cols as int, c, r)]
    }
}

/// `after` is `main` with the cells of `sub` copied in at (`col`, `row`).
pub open spec fn blit_result(main: BufferView, sub: BufferView, col: i64, row: i64, after: BufferView) -> bool {
    &&& after == BufferView { cells: after.cells, ..main }
    &&& after.cells.len() == main.cells.len()
    &&& forall|c: int, r: int|
        1 <= c <= main.cols && 1 <= r <= main.rows ==> #[trigger] after.cells[pos(
            main.cols as int,
            c,
            r,
        )] == blit_value(main, sub, col, row, c, r)
}

/// Copies `sub` into `main` with its top-left corner at the 1-based
/// (`col`, `row`), clipped at the right and bottom edges. When a row is
/// clipped and its last copied cell is the left half of a wide
/// character, that cell is not copied either. A wide character of `main`
/// just left of the copy, whose placeholder the copy overwrites, is
/// blanked. An empty `sub`, or a corner past the edges, copies nothing.
/// Only cells change.
pub fn blit_into(main: &mut BufferState, sub: &BufferState, col: i64, row: i64)
    requires
        old(main)@.wf(),
        sub@.wf(),
        col >= 1,
        row >= 1,
    ensures
        blit_result(old(main)@, sub@, col, row, final(main)@),
{
    let ghost m0 = main@;
    let ghost s = sub@;
    if sub.cols < 1 || sub.rows < 1 || col > main.cols || row > main.rows {
        return;
    }
    let n = main.cells.len();
    let sn = sub.cells.len();
    proof {
        lemma_index_in_range(m0.cols as int, m0.rows as int, col as int, row as int);
        lemma_index_in_range(s.cols as int, s.rows as int, 1, 1);
    }
    let height: i64 = if sub.rows < main.rows - row + 1 {
        sub.rows
    } else {
        main.rows - row + 1
    };
    let width: i64 = if sub.cols < main.cols - col + 1 {
        sub.cols
    } else {
        main.cols - col + 1
    };
    let clipped = width < sub.cols;
    let mut dr: i64 = 0;
    while dr < height
        invariant
            main@.wf(),
            n == main@.cells.len(),
            sn == s.cells.len(),
            s == sub@,
            s.wf(),
            main@ == (BufferView { cells: main@.cells, ..m0 }),
            1 <= col <= m0.cols,
            1 <= row <= m0.rows,
            s.cols >= 1,
            s.rows >= 1,
            height == blit_height(m0, s, row),
            width == blit_width(m0, s, col),
            clipped == (width < s.cols),
            1 <= height <= s.rows,
            row + height - 1 <= m0.rows,
            1 <= width <= s.cols,
            col + width - 1 <= m0.cols,
            0 <= dr <= height,
            forall|c: int, r: int|
                1 <= c <= m0.cols && 1 <= r <= m0.rows ==> #[trigger] main@.cells[pos(
                    m0.cols as int,
                    c,
                    r,
                )] == if r < row + dr {
                    blit_value(m0, s, col, row, c, r)
                } else {
                    m0.cells[pos(m0.cols as int, c, r)]
                },
        decreases height - dr,
    {
        proof {
            lemma_index_in_range(s.cols as int, s.rows as int, width as int, dr + 1);
        }
        let sub_row_start: usize = (dr as usize) * (sub.cols as usize);
        let mut copy_width: i64 = width;
        if clipped && copy_width > 0 {
            let last: usize = sub_row_start + (copy_width as usize) - 1;
            if cell_is_wide_lead(sub.cells[last].text.as_str()) {
                copy_width = copy_width - 1;
            }
        }
        proof {
            assert(sub_row_start + width - 1 == dr * s.cols + width - 1);
            assert(copy_width == row_copy_width(m0, s, col, dr as int));
        }
        if copy_width >= 1 && col >= 2 {
            proof {
                lemma_index_in_range(m0.cols as int, m0.rows as int, (col - 1) as int, row + dr);
            }
            let lead: usize = ((row - 1 + dr) as usize) * (main.cols as usize) + ((col - 2) as usize);
            proof {
                assert(lead as int == pos(m0.cols as int, col - 1, row + dr));
                assert(main@.cells[lead as int] == m0.cells[lead as int]);
            }
            if cell_is_wide_lead(main.cells[lead].text.as_str()) {
                let ghost before = main@;
                main.cells.set(lead, Cell::default_space());
                proof {
                    assert(main@.cells =~= before.cells.update(lead as int, space_cell()));
                    lemma_grid_put(
                        before.cells,
                        main@.cells,
                        m0.cols as int,
                        m0.rows as int,
                        col - 1,
                        row + dr,
                        space_cell(),
                    );
                }
            }
        }
        proof {
            assert forall|c: int, r: int|
                1 <= c <= m0.cols && 1 <= r <= m0.rows implies #[trigger] main@.cells[pos(
                    m0.cols as int,
                    c,
                    r,
                )] == if r < row + dr || (r == row + dr && !in_blit(m0, s, col, row, c, r)) {
                    blit_value(m0, s, col, row, c, r)
                } else {
                    m0.cells[pos(m0.cols as int, c, r)]
                } by {
                if r == row + dr && c == col - 1 && col >= 2 {
                    assert(pos(m0.cols as int, c, r) == pos(m0.cols as int, col - 1, row + dr));
                }
            }
        }
        let mut k: i64 = 0;
        while k < copy_width
            invariant
                main@.wf(),
                n == main@.cells.len(),
                sn == s.cells.len(),
                s == sub@,
                s.wf(),
                main@ == (BufferView { cells: main@.cells, ..m0 }),
                1 <= col <= m0.cols,
                1 <= row <= m0.rows,
                s.cols >= 1,
                s.rows >= 1,
                height == blit_height(m0, s, row),
                width == blit_width(m0, s, col),
                1 <= height <= s.rows,
                row + height - 1 <= m0.rows,
                1 <= width <= s.cols,
                col + width - 1 <= m0.cols,
                0 <= dr < height,
                copy_width == row_copy_width(m0, s, col, dr as int),
                0 <= copy_width <= width,
                0 <= k <= copy_width,
                forall|c: int, r: int|
                    1 <= c <= m0.cols && 1 <= r <= m0.rows ==> #[trigger] main@.cells[pos(
                        m0.cols as int,
                        c,
                        r,
                    )] == if r < row + dr || (r == row + dr && (c < col + k || !in_blit(
                        m0,
                        s,
                        col,
                        row,
                        c,
                        r,
                    ))) {
                        blit_value(m0, s, col, row, c, r)
                    } else {
                        m0.cells[pos(m0.cols as int, c, r)]
                    },
            decreases copy_width - k,
        {
            proof {
                lemma_index_in_range(s.cols as int, s.rows as int, k + 1, dr + 1);
                lemma_index_in_range(m0.cols as int, m0.rows as int, col + k, row + dr);
            }
            let ghost before = main@;
            let src: usize = (dr as usize) * (sub.cols as usize) + (k as usize);
            let dst: usize = ((row - 1 + dr) as usize) * (main.cols as usize) + ((col - 1 + k) as usize);
            let cell = sub.cells[src].duplicate();
            main.cells.set(dst, cell);
            proof {
                assert(src as int == pos(s.cols as int, k + 1, dr + 1));
                assert(dst as int == pos(m0.cols as int, col + k, row + dr));
                assert(main@.cells =~= before.cells.update(dst as int, s.cells[src as int]));
                lemma_grid_put(
                    before.cells,
                    main@.cells,
                    m0.cols as int,
                    m0.rows as int,
                    col + k,
                    row + dr,
                    s.cells[src as int],
                );
                assert forall|c: int, r: int|
                    1 <= c <= m0.cols && 1 <= r <= m0.rows implies #[trigger] main@.cells[pos(
                        m0.cols as int,
                        c,
                        r,
                    )] == if r < row + dr || (r == row + dr && (c < col + k + 1 || !in_blit(
                        m0,
                        s,
                        col,
                        row,
                        c,
                        r,
                    ))) {
                        blit_value(m0, s, col, row, c, r)
                    } else {
                        m0.cells[pos(m0.cols as int, c, r)]
                    } by {
                    assert(before.cells[pos(m0.cols as int, c, r)] == (if r < row + dr || (r
                        == row + dr && (c < col + k || !in_blit(m0, s, col, row, c, r))) {
                        blit_value(m0, s, col, row, c, r)
                    } else {
                        m0.cells[pos(m0.cols as int, c, r)]
                    }));
                    if c == col + k && r == row + dr {
                        assert(in_blit(m0, s, col, row, c, r));
                        assert(blit_source(s, col, row, c, r) == s.cells[src as int]);
                    }
                }
            }
            k = k + 1;
        }
        proof {
            assert forall|c: int, r: int|
                1 <= c <= m0.cols && 1 <= r <= m0.rows implies #[trigger] main@.cells[pos(
                    m0.cols as int,
                    c,
                    r,
                )] == if r < row + dr + 1 {
                    blit_value(m0, s, col, row, c, r)
                } else {
                    m0.cells[pos(m0.cols as int, c, r)]
                } by {
                if r == row + dr && in_blit(m0, s, col, row, c, r) {
                    assert(c < col + k);
                }
            }
        }
        dr = dr + 1;
    }
    proof {
        assert forall|c: int, r: int|
            1 <= c <= m0.cols && 1 <= r <= m0.rows implies #[trigger] main@.cells[pos(
                m0.cols as int,
                c,
                r,
            )] == blit_value(m0, s, col, row, c, r) by {
            if r >= row + dr {
                assert(!in_blit(m0, s, col, row, c, r));
                assert(!blit_seam(m0, s, col, row, c, r));
            }
        }
    }
}

/// The detail of a corner-coordinate error: `"<name> <v> must be >= 1"`.
pub open spec fn corner_detail(name: Seq<char>, v: i64) -> Seq<char> {
    name + seq![' '] + decimal(v as int) + " must be >= 1"@
}

fn corner_message(name: &str, v: i64) -> (m: String)
    ensures
        m@ == corner_detail(name@, v),
{
    let mut m = String::new();
    push_str(&mut m, name);
    crate::text::push_char(&mut m, ' ');
    push_decimal(&mut m, v);
    push_str(&mut m, " must be >= 1");
    m
}

/// Copies `sub` into `main` at (`col`, `row`) and drops `main`'s stored
/// row hashes; a corner left of or above the buffer is `OutOfBounds`.
pub fn buffer_blit(main: BufferState, sub: &BufferState, col: i64, row: i64) -> (r: Result<
    BufferState,
    RendererError,
>)
    requires
        main@.wf(),
        sub@.wf(),
    ensures
        col < 1 ==> (r matches Err(RendererError::OutOfBounds(m)) && m@ == corner_detail(
            "col"@,
            col,
        )),
        col >= 1 && row < 1 ==> (r matches Err(RendererError::OutOfBounds(m)) && m@
            == corner_detail("row"@, row)),
        col >= 1 && row >= 1 ==> (r matches Ok(b) && b@.row_hashes is None && blit_result(
            main@,
            sub@,
            col,
            row,
            BufferView { row_hashes: main@.row_hashes, ..b@ },
        )),
{
    if col < 1 {
        return Err(RendererError::OutOfBounds(corner_message("col", col)));
    }
    if row < 1 {
        return Err(RendererError::OutOfBounds(corner_message("row", row)));
    }
    let mut main = main;
    blit_into(&mut main, sub, col, row);
    main.row_hashes = None;
    Ok(main)
}

} // verus!
