//! Laws of the renderer's differ: what its operations mean, what it
//! yields for equal buffers and how its two strategies relate.

use vstd::prelude::*;

use crate::renderer::blit::is_wide_lead;
use crate::renderer::diff::{
    all_writes, bare_op, cursor_ops, diff_spec, ops_out, render_full_spec, flush_write, hashed_writes, row_diff, row_writes,
    run_write, unit_changed, unit_step, use_fast,
};
use crate::renderer::ops::pos;
use crate::renderer::state::{
    diff_kind, empty_style, lemma_index_in_range, BufferView, CellView, OpView, StyleView, fingerprint,
};

verus! {

// ── The meaning of an operation ──────────────────────────────────

/// The screen after one operation, taken cell by cell: a write inside
/// the buffer puts its text and style into the cell where it starts, a
/// move places the cursor, show and hide set its visibility; anything
/// else leaves the screen as it was.
pub open spec fn apply_op(b: BufferView, op: OpView) -> BufferView {
    if op.kind == diff_kind::WRITE {
        if 1 <= op.col <= b.cols && 1 <= op.row <= b.rows {
            BufferView {
                cells: b.cells.update(
                    pos(b.cols as int, op.col as int, op.row as int),
                    CellView { text: op.text, style: op.style },
                ),
                ..b
            }
        } else {
            b
        }
    } else if op.kind == diff_kind::MOVE_TO {
        BufferView { cursor_col: op.col, cursor_row: op.row, ..b }
    } else if op.kind == diff_kind::SHOW_CURSOR {
        BufferView { cursor_visible: true, ..b }
    } else if op.kind == diff_kind::HIDE_CURSOR {
        BufferView { cursor_visible: false, ..b }
    } else {
        b
    }
}

/// The screen after the operations, applied in order.
pub open spec fn apply_ops(b: BufferView, ops: Seq<OpView>) -> BufferView
    decreases ops.len(),
{
    if ops.len() == 0 {
        b
    } else {
        apply_op(apply_ops(b, ops.drop_last()), ops.last())
    }
}

/// Neighbouring cells `c` and `c + 1` (0-based) of row `r` both change,
/// in one style, so the differ writes them as one run.
pub open spec fn merges_with_next(prev: BufferView, next: BufferView, r: int, c: int) -> bool {
    let i = r * next.cols + c;
    &&& prev.cells[i] != next.cells[i]
    &&& prev.cells[i + 1] != next.cells[i + 1]
    &&& next.cells[i].style == next.cells[i + 1].style
}

/// The differ writes every change as one cell of its own: `next` holds
/// no wide character and no two neighbouring changed cells of a row share
/// a style.
pub open spec fn cellwise_changes(prev: BufferView, next: BufferView) -> bool {
    &&& forall|i: int| 0 <= i < next.cells.len() ==> !is_wide_lead(#[trigger] next.cells[i].text)
    &&& forall|r: int, c: int|
        0 <= r < next.rows && 0 <= c && c + 1 < next.cols ==> !#[trigger] merges_with_next(
            prev,
            next,
            r,
            c,
        )
}

// ── Row hashes ───────────────────────────────────────────────────

/// The cells of 0-based row `r` of a buffer `cols` wide.
pub open spec fn row_cells(cells: Seq<CellView>, cols: int, r: int) -> Seq<CellView> {
    cells.subrange(r * cols, r * cols + cols)
}

/// Rows whose cells differ have different fingerprints.
pub open spec fn no_row_collision(prev: BufferView, next: BufferView) -> bool {
    forall|r: int|
        0 <= r < next.rows && #[trigger] row_cells(prev.cells, next.cols as int, r) != row_cells(
            next.cells,
            next.cols as int,
            r,
        ) ==> fingerprint(row_cells(prev.cells, next.cols as int, r)) != fingerprint(
            row_cells(next.cells, next.cols as int, r),
        )
}

/// When the differ skips rows by their stored hashes, those hashes match
/// the cells and tell differing rows apart.
pub open spec fn hashes_trustworthy(prev: BufferView, next: BufferView) -> bool {
    use_fast(prev, next) ==> prev.hashes_valid() && next.hashes_valid() && no_row_collision(prev, next)
}

// ── Helper lemmas ────────────────────────────────────────────────

/// A row whose cells agree from column `c` on yields no writes from
/// there when no run is pending.
proof fn lemma_row_writes_agree(prev: Seq<CellView>, next: Seq<CellView>, cols: int, r: int, c: int)
    requires
        0 <= c,
        forall|j: int| r * cols + c <= j < r * cols + cols ==> prev[j] == next[j],
    ensures
        row_diff(prev, next, cols, r, c, false, 0, Seq::empty(), empty_style()) == Seq::<OpView>::empty(),
    decreases cols - c,
{
    if c < cols {
        let step = unit_step(next, cols, r, c);
        let i = r * cols + c;
        assert(prev[i] == next[i]);
        if step == 2 {
            assert(prev[i + 1] == next[i + 1]);
        }
        assert(!unit_changed(prev, next, cols, r, c));
        lemma_row_writes_agree(prev, next, cols, r, c + step);
        assert(row_diff(prev, next, cols, r, c, false, 0, Seq::empty(), empty_style()) =~= Seq::<OpView>::empty());
    }
}

/// Identical cells yield no writes.
proof fn lemma_all_writes_same(cells: Seq<CellView>, cols: int, k: int)
    ensures
        all_writes(cells, cells, cols, k) == Seq::<OpView>::empty(),
    decreases k,
{
    if k > 0 {
        lemma_all_writes_same(cells, cols, k - 1);
        lemma_row_writes_agree(cells, cells, cols, k - 1, 0);
        assert(all_writes(cells, cells, cols, k) =~= Seq::<OpView>::empty());
    }
}

/// Identical cells and hashes yield no writes.
proof fn lemma_hashed_writes_same(cells: Seq<CellView>, h: Seq<u64>, cols: int, k: int)
    ensures
        hashed_writes(cells, cells, h, h, cols, k) == Seq::<OpView>::empty(),
    decreases k,
{
    if k > 0 {
        lemma_hashed_writes_same(cells, h, cols, k - 1);
        assert(hashed_writes(cells, cells, h, h, cols, k) =~= Seq::<OpView>::empty());
    }
}

/// Under trustworthy hashes, skipping rows by hash loses no write.
proof fn lemma_hashed_is_all(prev: BufferView, next: BufferView, k: int)
    requires
        prev.wf(),
        next.wf(),
        prev.cols == next.cols,
        prev.rows == next.rows,
        next.cols >= 1,
        next.rows >= 1,
        prev.hashes_valid(),
        next.hashes_valid(),
        no_row_collision(prev, next),
        0 <= k <= next.rows,
    ensures
        hashed_writes(
            prev.cells,
            next.cells,
            prev.row_hashes->0,
            next.row_hashes->0,
            next.cols as int,
            k,
        ) == all_writes(prev.cells, next.cells, next.cols as int, k),
    decreases k,
{
    let cols = next.cols as int;
    if k > 0 {
        lemma_hashed_is_all(prev, next, k - 1);
        let r = k - 1;
        let ph = prev.row_hashes->0;
        let nh = next.row_hashes->0;
        if ph[r] == nh[r] {
            let s = r * cols;
            assert(s + cols <= next.cells.len()) by (nonlinear_arith)
                requires
                    s == r * cols,
                    r + 1 <= next.rows,
                    next.cells.len() == cols * next.rows,
                    cols >= 1,
            ;
            assert(ph[r] == prev.row_hash_at(r));
            assert(nh[r] == next.row_hash_at(r));
            assert(row_cells(prev.cells, cols, r) == row_cells(next.cells, cols, r));
            assert forall|j: int| s <= j < s + cols implies prev.cells[j] == next.cells[j] by {
                assert(prev.cells.subrange(s, s + cols)[j - s] == prev.cells[j]);
                assert(next.cells.subrange(s, s + cols)[j - s] == next.cells[j]);
            }
            lemma_row_writes_agree(prev.cells, next.cells, cols, r, 0);
        }
        assert(hashed_writes(prev.cells, next.cells, ph, nh, cols, k) =~= all_writes(
            prev.cells,
            next.cells,
            cols,
            k,
        ));
    }
}

/// Applying a concatenation applies its parts in turn.
pub proof fn lemma_apply_concat(b: BufferView, a: Seq<OpView>, c: Seq<OpView>)
    ensures
        apply_ops(b, a + c) == apply_ops(apply_ops(b, a), c),
    decreases c.len(),
{
    if c.len() == 0 {
        assert(a + c =~= a);
    } else {
        lemma_apply_concat(b, a, c.drop_last());
        assert((a + c).drop_last() =~= a + c.drop_last());
        assert((a + c).last() == c.last());
    }
}

/// Applying one operation.
proof fn lemma_apply_one(b: BufferView, op: OpView)
    ensures
        apply_ops(b, seq![op]) == apply_op(b, op),
{
    assert(seq![op].drop_last() =~= Seq::<OpView>::empty());
    assert(apply_ops(b, Seq::<OpView>::empty()) == b);
}

/// No columns, no writes.
proof fn lemma_all_writes_no_cols(prev: Seq<CellView>, next: Seq<CellView>, cols: int, k: int)
    requires
        cols <= 0,
    ensures
        all_writes(prev, next, cols, k) == Seq::<OpView>::empty(),
    decreases k,
{
    if k > 0 {
        lemma_all_writes_no_cols(prev, next, cols, k - 1);
        assert(all_writes(prev, next, cols, k) =~= Seq::<OpView>::empty());
    }
}

/// The cells of `b` are those of `next` below index `t` and those of
/// `prev` from `t` on; everything else is `prev`'s.
pub open spec fn mixed(b: BufferView, prev: BufferView, next: BufferView, t: int) -> bool {
    &&& b == BufferView { cells: b.cells, ..prev }
    &&& b.cells.len() == prev.cells.len()
    &&& forall|j: int|
        0 <= j < b.cells.len() ==> #[trigger] b.cells[j] == if j < t {
            next.cells[j]
        } else {
            prev.cells[j]
        }
}

/// Writing the pending one-cell run (cell `c - 1` of row `r`) moves the
/// boundary past that cell.
proof fn lemma_apply_flush(
    prev: BufferView,
    next: BufferView,
    b: BufferView,
    r: int,
    c: int,
    has: bool,
    t: Seq<char>,
    s: StyleView,
)
    requires
        prev.wf(),
        next.wf(),
        prev.cols == next.cols,
        prev.rows == next.rows,
        next.cols >= 1,
        0 <= r < next.rows,
        0 <= c <= next.cols,
        has ==> c >= 1 && t == next.cells[r * next.cols + c - 1].text && s == next.cells[r * next.cols
            + c - 1].style,
        mixed(b, prev, next, r * next.cols + c - (if has { 1int } else { 0 })),
    ensures
        mixed(apply_ops(b, flush_write(has, c, r, t, s)), prev, next, r * next.cols + c),
{
    let cols = next.cols as int;
    if has {
        let op = run_write(c, r, t, s);
        lemma_apply_one(b, op);
        assert(flush_write(has, c, r, t, s) == seq![op]);
        lemma_index_in_range(cols, next.rows as int, c, r + 1);
        assert(pos(cols, c, r + 1) == r * cols + c - 1) by (nonlinear_arith)
            requires
                cols >= 1,
        ;
        assert(CellView { text: t, style: s } == next.cells[r * cols + c - 1]);
    } else {
        assert(flush_write(has, c, r, t, s) =~= Seq::<OpView>::empty());
    }
}

/// Under cell-wise changes, applying the writes for row `r` from column
/// `c` on, after a pending one-cell run or none, moves the boundary to
/// the row's end.
proof fn lemma_apply_row_diff(
    prev: BufferView,
    next: BufferView,
    b: BufferView,
    r: int,
    c: int,
    has: bool,
    start: int,
    t: Seq<char>,
    s: StyleView,
)
    requires
        prev.wf(),
        next.wf(),
        prev.cols == next.cols,
        prev.rows == next.rows,
        next.cols >= 1,
        0 <= r < next.rows,
        0 <= c <= next.cols,
        cellwise_changes(prev, next),
        has ==> c >= 1 && start == c && t == next.cells[r * next.cols + c - 1].text && s
            == next.cells[r * next.cols + c - 1].style && prev.cells[r * next.cols + c - 1]
            != next.cells[r * next.cols + c - 1],
        mixed(b, prev, next, r * next.cols + c - (if has { 1int } else { 0 })),
    ensures
        mixed(
            apply_ops(b, row_diff(prev.cells, next.cells, next.cols as int, r, c, has, start, t, s)),
            prev,
            next,
            r * next.cols + next.cols,
        ),
    decreases next.cols - c,
{
    let cols = next.cols as int;
    lemma_index_in_range(cols, next.rows as int, cols, r + 1);
    assert(r * cols + cols <= next.cells.len()) by (nonlinear_arith)
        requires
            r + 1 <= next.rows,
            next.cells.len() == cols * next.rows,
            cols >= 1,
    ;
    assert(0 <= r * cols) by (nonlinear_arith)
        requires
            r >= 0,
            cols >= 1,
    ;
    let fl = flush_write(has, start, r, t, s);
    lemma_apply_flush(prev, next, b, r, c, has, t, s);
    let b1 = apply_ops(b, fl);
    if c >= cols {
        assert(row_diff(prev.cells, next.cells, cols, r, c, has, start, t, s) == fl);
    } else {
        let i = r * cols + c;
        assert(!is_wide_lead(next.cells[i].text));
        assert(unit_step(next.cells, cols, r, c) == 1);
        let cell = next.cells[i];
        if !unit_changed(prev.cells, next.cells, cols, r, c) {
            let rest = row_diff(prev.cells, next.cells, cols, r, c + 1, false, 0, Seq::empty(), empty_style());
            assert(row_diff(prev.cells, next.cells, cols, r, c, has, start, t, s) == fl + rest);
            lemma_apply_concat(b, fl, rest);
            assert(mixed(b1, prev, next, r * cols + c + 1)) by {
                assert(prev.cells[i] == next.cells[i]);
            }
            lemma_apply_row_diff(prev, next, b1, r, c + 1, false, 0, Seq::empty(), empty_style());
        } else {
            if has {
                assert(!merges_with_next(prev, next, r, c - 1));
                assert(r * cols + (c - 1) + 1 == i);
            }
            assert(!(has && cell.style == s));
            let rest = row_diff(prev.cells, next.cells, cols, r, c + 1, true, c + 1, cell.text, cell.style);
            assert(row_diff(prev.cells, next.cells, cols, r, c, has, start, t, s) == fl + rest);
            lemma_apply_concat(b, fl, rest);
            lemma_apply_row_diff(prev, next, b1, r, c + 1, true, c + 1, cell.text, cell.style);
        }
    }
}

/// Under cell-wise changes, applying the writes of rows 0 .. `k` to
/// `prev` gives `next`'s cells in those rows.
proof fn lemma_apply_all(prev: BufferView, next: BufferView, k: int)
    requires
        prev.wf(),
        next.wf(),
        prev.cols == next.cols,
        prev.rows == next.rows,
        next.cols >= 1,
        0 <= k <= next.rows,
        cellwise_changes(prev, next),
    ensures
        mixed(
            apply_ops(prev, all_writes(prev.cells, next.cells, next.cols as int, k)),
            prev,
            next,
            k * next.cols,
        ),
    decreases k,
{
    let cols = next.cols as int;
    if k == 0 {
        assert(all_writes(prev.cells, next.cells, cols, 0) =~= Seq::<OpView>::empty());
    } else {
        lemma_apply_all(prev, next, k - 1);
        let a = all_writes(prev.cells, next.cells, cols, k - 1);
        let rw = row_writes(prev.cells, next.cells, cols, k - 1);
        lemma_apply_concat(prev, a, rw);
        assert((k - 1) * cols + cols == k * cols) by (nonlinear_arith);
        lemma_apply_row_diff(prev, next, apply_ops(prev, a), k - 1, 0, false, 0, Seq::empty(), empty_style());
    }
}

/// Every operation of a row's writes is a write.
proof fn lemma_row_diff_writes(
    prev: Seq<CellView>,
    next: Seq<CellView>,
    cols: int,
    r: int,
    c: int,
    has: bool,
    start: int,
    t: Seq<char>,
    s: StyleView,
)
    ensures
        forall|i: int|
            0 <= i < row_diff(prev, next, cols, r, c, has, start, t, s).len() ==> (#[trigger] row_diff(
                prev,
                next,
                cols,
                r,
                c,
                has,
                start,
                t,
                s,
            )[i]).kind == diff_kind::WRITE,
    decreases cols - c,
{
    let cur = row_diff(prev, next, cols, r, c, has, start, t, s);
    let fl = flush_write(has, start, r, t, s);
    assert forall|i: int| 0 <= i < fl.len() implies (#[trigger] fl[i]).kind == diff_kind::WRITE by {}
    if c < cols {
        let step = unit_step(next, cols, r, c);
        let cell = next[r * cols + c];
        let rest = if !unit_changed(prev, next, cols, r, c) {
            lemma_row_diff_writes(prev, next, cols, r, c + step, false, 0, Seq::empty(), empty_style());
            row_diff(prev, next, cols, r, c + step, false, 0, Seq::empty(), empty_style())
        } else if has && cell.style == s {
            lemma_row_diff_writes(prev, next, cols, r, c + step, true, start, t + cell.text, s);
            row_diff(prev, next, cols, r, c + step, true, start, t + cell.text, s)
        } else {
            lemma_row_diff_writes(prev, next, cols, r, c + step, true, c + 1, cell.text, cell.style);
            row_diff(prev, next, cols, r, c + step, true, c + 1, cell.text, cell.style)
        };
        if unit_changed(prev, next, cols, r, c) && has && cell.style == s {
            assert(cur == rest);
        } else {
            assert(cur == fl + rest);
            assert forall|i: int| 0 <= i < cur.len() implies (#[trigger] cur[i]).kind == diff_kind::WRITE by {
                if i < fl.len() {
                    assert(cur[i] == fl[i]);
                } else {
                    assert(cur[i] == rest[i - fl.len()]);
                }
            }
        }
    } else {
        assert(cur == fl);
    }
}

/// Every operation of the writes for rows 0 .. `k` is a write.
proof fn lemma_all_writes_are_writes(prev: Seq<CellView>, next: Seq<CellView>, cols: int, k: int)
    ensures
        forall|i: int|
            0 <= i < all_writes(prev, next, cols, k).len() ==> (#[trigger] all_writes(
                prev,
                next,
                cols,
                k,
            )[i]).kind == diff_kind::WRITE,
    decreases k,
{
    if k > 0 {
        lemma_all_writes_are_writes(prev, next, cols, k - 1);
        lemma_row_diff_writes(prev, next, cols, k - 1, 0, false, 0, Seq::empty(), empty_style());
        let a = all_writes(prev, next, cols, k - 1);
        let b = row_writes(prev, next, cols, k - 1);
        assert forall|i: int| 0 <= i < (a + b).len() implies (#[trigger] (a + b)[i]).kind == diff_kind::WRITE by {
            if i < a.len() {
                assert((a + b)[i] == a[i]);
            } else {
                assert((a + b)[i] == b[i - a.len()]);
            }
        }
    }
}

/// Drawing a concatenation draws its parts in turn.
pub proof fn lemma_ops_out_concat(a: Seq<OpView>, b: Seq<OpView>)
    ensures
        ops_out(a + b) == ops_out(a) + ops_out(b),
    decreases b.len(),
{
    if b.len() == 0 {
        assert(a + b =~= a);
        assert(ops_out(a) + ops_out(b) =~= ops_out(a));
    } else {
        lemma_ops_out_concat(a, b.drop_last());
        assert((a + b).drop_last() =~= a + b.drop_last());
        assert((a + b).last() == b.last());
        assert(ops_out(a + b) =~= ops_out(a) + ops_out(b));
    }
}

// ── Laws ─────────────────────────────────────────────────────────

/// Diffing a buffer against itself needs no repaint and yields no
/// operation.
pub proof fn law_diff_identical_is_empty(b: BufferView)
    requires
        b.wf(),
    ensures
        diff_spec(b, b) == (Seq::<OpView>::empty(), false),
{
    lemma_all_writes_same(b.cells, b.cols as int, b.rows as int);
    if use_fast(b, b) {
        lemma_hashed_writes_same(b.cells, b.row_hashes->0, b.cols as int, b.rows as int);
    }
    assert(cursor_ops(b, b) =~= Seq::<OpView>::empty());
    assert(diff_spec(b, b).0 =~= Seq::<OpView>::empty());
}

/// Skipping rows by trustworthy hashes gives the same operations as
/// comparing every cell: the writes for the changed cells, row by row,
/// then the cursor updates.
pub proof fn law_fast_path_agrees(prev: BufferView, next: BufferView)
    requires
        prev.wf(),
        next.wf(),
        prev.cols == next.cols,
        prev.rows == next.rows,
        hashes_trustworthy(prev, next),
    ensures
        diff_spec(prev, next) == (all_writes(prev.cells, next.cells, next.cols as int, next.rows as int)
            + cursor_ops(prev, next), false),
{
    if use_fast(prev, next) {
        if next.cols >= 1 && next.rows >= 1 {
            lemma_hashed_is_all(prev, next, next.rows as int);
        } else {
            assert(prev.row_hashes_of() =~= Seq::<u64>::empty());
            assert(next.rows == 0);
            assert(hashed_writes(
                prev.cells,
                next.cells,
                prev.row_hashes->0,
                next.row_hashes->0,
                next.cols as int,
                0,
            ) == Seq::<OpView>::empty());
            assert(all_writes(prev.cells, next.cells, next.cols as int, 0) == Seq::<OpView>::empty());
        }
    }
}

/// Applying the operations of a diff, cell by cell, to the screen
/// showing `prev` shows `next`: the same cells, cursor position and
/// visibility (only the stored row hashes, which are not drawn, stay
/// `prev`'s). This holds when every change is written as a cell of its
/// own; a run of changes in one style, or a wide character, is written
/// as one text that spans several cells.
pub proof fn law_diff_reconstructs(prev: BufferView, next: BufferView)
    requires
        prev.wf(),
        next.wf(),
        prev.cols == next.cols,
        prev.rows == next.rows,
        hashes_trustworthy(prev, next),
        cellwise_changes(prev, next),
    ensures
        !diff_spec(prev, next).1,
        apply_ops(prev, diff_spec(prev, next).0) == (BufferView {
            row_hashes: prev.row_hashes,
            ..next
        }),
{
    law_fast_path_agrees(prev, next);
    let cols = next.cols as int;
    let rows = next.rows as int;
    let writes = all_writes(prev.cells, next.cells, cols, rows);
    let after = apply_ops(prev, writes);
    if cols >= 1 && rows >= 1 {
        lemma_apply_all(prev, next, rows);
        assert(rows * cols == cols * rows) by (nonlinear_arith);
        assert(after.cells =~= next.cells);
    } else {
        if cols <= 0 {
            lemma_all_writes_no_cols(prev.cells, next.cells, cols, rows);
        } else {
            assert(writes == Seq::<OpView>::empty());
        }
        assert(after == prev);
        assert(after.cells =~= next.cells);
    }
    let cur = cursor_ops(prev, next);
    lemma_apply_concat(prev, writes, cur);
    let vis = if prev.cursor_visible != next.cursor_visible {
        seq![
            bare_op(
                if next.cursor_visible {
                    diff_kind::SHOW_CURSOR
                } else {
                    diff_kind::HIDE_CURSOR
                },
                1,
                1,
            ),
        ]
    } else {
        Seq::<OpView>::empty()
    };
    let mv = if prev.cursor_col != next.cursor_col || prev.cursor_row != next.cursor_row {
        seq![bare_op(diff_kind::MOVE_TO, next.cursor_col, next.cursor_row)]
    } else {
        Seq::<OpView>::empty()
    };
    assert(cur == vis + mv);
    lemma_apply_concat(after, vis, mv);
    let a1 = apply_ops(after, vis);
    if vis.len() == 1 {
        lemma_apply_one(after, vis[0]);
        assert(vis =~= seq![vis[0]]);
    } else {
        assert(apply_ops(after, vis) == after);
    }
    assert(a1 == BufferView { cursor_visible: next.cursor_visible, ..after });
    let a2 = apply_ops(a1, mv);
    if mv.len() == 1 {
        lemma_apply_one(a1, mv[0]);
        assert(mv =~= seq![mv[0]]);
    } else {
        assert(a2 == a1);
    }
    assert(a2 == BufferView { cursor_col: next.cursor_col, cursor_row: next.cursor_row, ..a1 });
    assert(a2 == (BufferView { row_hashes: prev.row_hashes, ..next }));
}

/// The differ's operations come in two blocks: every write first, then
/// the cursor updates, none of which is a write.
pub proof fn law_writes_come_first(prev: BufferView, next: BufferView)
    requires
        prev.wf(),
        next.wf(),
        prev.cols == next.cols,
        prev.rows == next.rows,
        hashes_trustworthy(prev, next),
    ensures
        forall|i: int, j: int|
            0 <= i < j < diff_spec(prev, next).0.len() && (#[trigger] diff_spec(prev, next).0[i]).kind
                != diff_kind::WRITE ==> (#[trigger] diff_spec(prev, next).0[j]).kind != diff_kind::WRITE,
{
    law_fast_path_agrees(prev, next);
    let w = all_writes(prev.cells, next.cells, next.cols as int, next.rows as int);
    let cur = cursor_ops(prev, next);
    lemma_all_writes_are_writes(prev.cells, next.cells, next.cols as int, next.rows as int);
    let ops = w + cur;
    assert forall|i: int| 0 <= i < cur.len() implies (#[trigger] cur[i]).kind != diff_kind::WRITE by {}
    assert forall|i: int, j: int|
        0 <= i < j < ops.len() && (#[trigger] ops[i]).kind != diff_kind::WRITE implies (#[trigger] ops[j]).kind
            != diff_kind::WRITE by {
        if i < w.len() {
            assert(ops[i] == w[i]);
        }
        assert(j >= w.len());
        assert(ops[j] == cur[j - w.len()]);
    }
}

/// Drawing operations distributes over concatenation: the output of
/// `a` followed by `b` is the output of `a` followed by that of `b`.
pub proof fn law_ops_out_distributes(a: Seq<OpView>, b: Seq<OpView>)
    ensures
        ops_out(a + b) == ops_out(a) + ops_out(b),
{
    lemma_ops_out_concat(a, b);
}

/// A frame drawn against an identical one draws nothing.
pub proof fn law_same_frame_draws_nothing(b: BufferView)
    requires
        b.wf(),
    ensures
        (if diff_spec(b, b).1 {
            render_full_spec(b)
        } else {
            ops_out(diff_spec(b, b).0)
        }) == Seq::<char>::empty(),
{
    law_diff_identical_is_empty(b);
}

/// Recomputing the row hashes yields hashes that match the cells, and
/// recomputing them again changes nothing.
pub proof fn law_row_hashes_idempotent(b: BufferView)
    ensures
        (BufferView { row_hashes: Some(b.row_hashes_of()), ..b }).hashes_valid(),
        (BufferView { row_hashes: Some(b.row_hashes_of()), ..b }).row_hashes_of() == b.row_hashes_of(),
{
    let h = BufferView { row_hashes: Some(b.row_hashes_of()), ..b };
    assert(h.row_hashes_of() =~= b.row_hashes_of());
}

} // verus!
