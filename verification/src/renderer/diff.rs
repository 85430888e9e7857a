//! ANSI rendering of buffers and diff operations, and the frame differ.

use vstd::prelude::*;

use crate::renderer::blit::{cell_is_wide_lead, is_wide_lead};
use crate::renderer::ops::pos;
use crate::renderer::state::{
    diff_kind, BufferState, BufferView, Cell, CellStyle, CellView, DiffOp, OpView, StyleView,
    empty_style, lemma_index_in_range, ops_view, style_is_empty,
};
use crate::text::{decimal, digits_of, push_char, push_decimal, push_digits, push_str, str_eq};

verus! {

/// Hides the cursor.
pub const ANSI_CURSOR_HIDE: &'static str = "\x1b[?25l";

/// Shows the cursor.
pub const ANSI_CURSOR_SHOW: &'static str = "\x1b[?25h";

/// Clears the current line and returns to its start.
pub const ANSI_CLEAR_LINE: &'static str = "\x1b[2K\r";

/// Resets all graphic attributes.
pub const ANSI_RESET: &'static str = "\x1b[0m";

// ── Output specifications ────────────────────────────────────────

/// `ESC [ row ; col H`: move the cursor to the 1-based (`col`, `row`).
pub open spec fn move_to_spec(col: i64, row: i64) -> Seq<char> {
    "\x1b["@ + decimal(row as int) + seq![';'] + decimal(col as int) + seq!['H']
}

/// SGR foreground code of a colour name.
#[verifier::opaque]
pub open spec fn fg_code_spec(name: Seq<char>) -> Option<u32> {
    if name == "black"@ {
        Some(30)
    } else if name == "red"@ {
        Some(31)
    } else if name == "green"@ {
        Some(32)
    } else if name == "yellow"@ {
        Some(33)
    } else if name == "blue"@ {
        Some(34)
    } else if name == "magenta"@ {
        Some(35)
    } else if name == "cyan"@ {
        Some(36)
    } else if name == "white"@ {
        Some(37)
    } else if name == "bright_black"@ {
        Some(90)
    } else if name == "bright_red"@ {
        Some(91)
    } else if name == "bright_green"@ {
        Some(92)
    } else if name == "bright_yellow"@ {
        Some(93)
    } else if name == "bright_blue"@ {
        Some(94)
    } else if name == "bright_magenta"@ {
        Some(95)
    } else if name == "bright_cyan"@ {
        Some(96)
    } else if name == "bright_white"@ {
        Some(97)
    } else {
        None
    }
}

/// SGR background code of a colour name: the foreground code plus 10.
pub open spec fn bg_code_spec(name: Seq<char>) -> Option<u32> {
    match fg_code_spec(name) {
        Some(c) => Some((c + 10) as u32),
        None => None,
    }
}

/// The code as a one-element sequence, or nothing.
pub open spec fn opt_code(c: Option<u32>) -> Seq<u32> {
    match c {
        Some(v) => seq![v],
        None => Seq::empty(),
    }
}

/// The SGR codes of a style, in emission order: bold 1, dim 2, italic 3,
/// underline 4, then the foreground and background colours (unknown
/// colour names contribute nothing).
pub open spec fn sgr_codes(s: StyleView) -> Seq<u32> {
    (if s.bold { seq![1u32] } else { Seq::empty() }) + (if s.dim {
        seq![2u32]
    } else {
        Seq::empty()
    }) + (if s.italic { seq![3u32] } else { Seq::empty() }) + (if s.underline {
        seq![4u32]
    } else {
        Seq::empty()
    }) + opt_code(fg_code_spec(s.fg)) + opt_code(bg_code_spec(s.bg))
}

/// Decimal codes separated by `;`.
pub open spec fn join_codes(c: Seq<u32>) -> Seq<char>
    decreases c.len(),
{
    if c.len() == 0 {
        Seq::empty()
    } else if c.len() == 1 {
        digits_of(c[0] as nat)
    } else {
        join_codes(c.drop_last()) + seq![';'] + digits_of(c.last() as nat)
    }
}

/// `text` drawn with `s`: bare when the style yields no SGR code, else
/// wrapped in `ESC [ codes m` … `ESC [0m`.
pub open spec fn styled_spec(text: Seq<char>, s: StyleView) -> Seq<char> {
    let codes = sgr_codes(s);
    if style_is_empty(s) || codes.len() == 0 {
        text
    } else {
        "\x1b["@ + join_codes(codes) + seq!['m'] + text + ANSI_RESET@
    }
}

/// A cell's text as drawn: a space when it is empty.
pub open spec fn drawn_text(c: CellView) -> Seq<char> {
    if c.text.len() == 0 {
        seq![' ']
    } else {
        c.text
    }
}

/// The pending run `t` in style `s`, drawn (nothing when there is none).
pub open spec fn flush_run(has: bool, t: Seq<char>, s: StyleView) -> Seq<char> {
    if has {
        styled_spec(t, s)
    } else {
        Seq::empty()
    }
}

/// Columns `c ..` of 0-based row `r` drawn after a pending run (`has`,
/// `t`, `s`). Contiguous cells of one style are drawn as one run; a wide
/// character takes its placeholder cell to its right along with it (the
/// glyph itself advances the terminal two columns).
pub open spec fn line_out(
    cells: Seq<CellView>,
    cols: int,
    r: int,
    c: int,
    has: bool,
    t: Seq<char>,
    s: StyleView,
) -> Seq<char>
    decreases cols - c,
{
    if c >= cols {
        flush_run(has, t, s)
    } else {
        let cell = cells[r * cols + c];
        let step: int = if is_wide_lead(cell.text) && c + 1 < cols {
            2
        } else {
            1
        };
        if has && cell.style == s {
            line_out(cells, cols, r, c + step, true, t + drawn_text(cell), s)
        } else {
            flush_run(has, t, s) + line_out(cells, cols, r, c + step, true, drawn_text(cell), cell.style)
        }
    }
}

/// The 1-based row `r`, drawn.
pub open spec fn row_out(b: BufferView, r: int) -> Seq<char> {
    line_out(b.cells, b.cols as int, r - 1, 0, false, Seq::empty(), empty_style())
}

/// Rows 1 ..= `k`, each preceded by a move to its first column.
pub open spec fn rows_out(b: BufferView, k: int) -> Seq<char>
    decreases k,
{
    if k <= 0 {
        Seq::empty()
    } else {
        rows_out(b, k - 1) + move_to_spec(1, k as i64) + row_out(b, k)
    }
}

/// A full repaint: hide the cursor, draw every row, move the cursor to
/// its place and show it when visible. An empty buffer draws nothing.
pub open spec fn render_full_spec(b: BufferView) -> Seq<char> {
    if b.cols == 0 || b.rows == 0 {
        Seq::empty()
    } else {
        ANSI_CURSOR_HIDE@ + rows_out(b, b.rows as int) + move_to_spec(b.cursor_col, b.cursor_row)
            + (if b.cursor_visible { ANSI_CURSOR_SHOW@ } else { Seq::empty() })
    }
}

/// One diff operation as terminal output; an unknown kind draws nothing.
pub open spec fn op_out(op: OpView) -> Seq<char> {
    if op.kind == diff_kind::MOVE_TO {
        move_to_spec(op.col, op.row)
    } else if op.kind == diff_kind::CLEAR_LINE {
        ANSI_CLEAR_LINE@
    } else if op.kind == diff_kind::SHOW_CURSOR {
        ANSI_CURSOR_SHOW@
    } else if op.kind == diff_kind::HIDE_CURSOR {
        ANSI_CURSOR_HIDE@
    } else if op.kind == diff_kind::WRITE {
        move_to_spec(op.col, op.row) + styled_spec(op.text, op.style)
    } else {
        Seq::empty()
    }
}

/// A sequence of operations as terminal output, in order.
pub open spec fn ops_out(ops: Seq<OpView>) -> Seq<char>
    decreases ops.len(),
{
    if ops.len() == 0 {
        Seq::empty()
    } else {
        ops_out(ops.drop_last()) + op_out(ops.last())
    }
}

// ── Diff specifications ──────────────────────────────────────────

/// Columns taken by the unit that starts at 0-based column `c` of row
/// `r`: a wide character and its placeholder form one unit of two
/// columns (when the placeholder is inside the row), any other cell a
/// unit of one.
pub open spec fn unit_step(cells: Seq<CellView>, cols: int, r: int, c: int) -> int {
    if is_wide_lead(cells[r * cols + c].text) && c + 1 < cols {
        2
    } else {
        1
    }
}

/// Whether the unit of `next` at column `c` of row `r` differs from what
/// `prev` has in its columns.
pub open spec fn unit_changed(prev: Seq<CellView>, next: Seq<CellView>, cols: int, r: int, c: int) -> bool {
    let i = r * cols + c;
    prev[i] != next[i] || (unit_step(next, cols, r, c) == 2 && prev[i + 1] != next[i + 1])
}

/// A write of text `t` in style `s` from 0-based row `r`, 1-based column
/// `start`.
pub open spec fn run_write(start: int, r: int, t: Seq<char>, s: StyleView) -> OpView {
    OpView { kind: diff_kind::WRITE, col: start as i64, row: (r + 1) as i64, text: t, style: s }
}

/// The pending run as a write, or nothing.
pub open spec fn flush_write(has: bool, start: int, r: int, t: Seq<char>, s: StyleView) -> Seq<OpView> {
    if has {
        seq![run_write(start, r, t, s)]
    } else {
        Seq::empty()
    }
}

/// Writes for the changed units of row `r` from column `c` on, after a
/// pending run (`has`, `start`, `t`, `s`). Adjacent changed units of one
/// style are coalesced into one write, which carries their texts in
/// order; a wide pair contributes its lead's text only. An unchanged unit
/// ends the run.
pub open spec fn row_diff(
    prev: Seq<CellView>,
    next: Seq<CellView>,
    cols: int,
    r: int,
    c: int,
    has: bool,
    start: int,
    t: Seq<char>,
    s: StyleView,
) -> Seq<OpView>
    decreases cols - c,
{
    if c >= cols {
        flush_write(has, start, r, t, s)
    } else {
        let cell = next[r * cols + c];
        let step = unit_step(next, cols, r, c);
        if !unit_changed(prev, next, cols, r, c) {
            flush_write(has, start, r, t, s) + row_diff(
                prev,
                next,
                cols,
                r,
                c + step,
                false,
                0,
                Seq::empty(),
                empty_style(),
            )
        } else if has && cell.style == s {
            row_diff(prev, next, cols, r, c + step, true, start, t + cell.text, s)
        } else {
            flush_write(has, start, r, t, s) + row_diff(
                prev,
                next,
                cols,
                r,
                c + step,
                true,
                c + 1,
                cell.text,
                cell.style,
            )
        }
    }
}

/// Writes for the changed units of 0-based row `r`, left to right.
pub open spec fn row_writes(prev: Seq<CellView>, next: Seq<CellView>, cols: int, r: int) -> Seq<OpView> {
    row_diff(prev, next, cols, r, 0, false, 0, Seq::empty(), empty_style())
}

/// Writes for every differing cell of rows 0 .. `k`, row-major.
pub open spec fn all_writes(prev: Seq<CellView>, next: Seq<CellView>, cols: int, k: int) -> Seq<OpView>
    decreases k,
{
    if k <= 0 {
        Seq::empty()
    } else {
        all_writes(prev, next, cols, k - 1) + row_writes(prev, next, cols, k - 1)
    }
}

/// Writes for the differing cells of those rows 0 .. `k` whose stored
/// hashes differ.
pub open spec fn hashed_writes(
    prev: Seq<CellView>,
    next: Seq<CellView>,
    ph: Seq<u64>,
    nh: Seq<u64>,
    cols: int,
    k: int,
) -> Seq<OpView>
    decreases k,
{
    if k <= 0 {
        Seq::empty()
    } else {
        hashed_writes(prev, next, ph, nh, cols, k - 1) + (if ph[k - 1] != nh[k - 1] {
            row_writes(prev, next, cols, k - 1)
        } else {
            Seq::empty()
        })
    }
}

/// An operation of the given kind that carries no cell.
pub open spec fn bare_op(kind: i64, col: i64, row: i64) -> OpView {
    OpView { kind, col, row, text: Seq::empty(), style: empty_style() }
}

/// The cursor updates: visibility first, then position.
pub open spec fn cursor_ops(prev: BufferView, next: BufferView) -> Seq<OpView> {
    (if prev.cursor_visible != next.cursor_visible {
        seq![
            bare_op(
                if next.cursor_visible {
                    diff_kind::SHOW_CURSOR
                } else {
                    diff_kind::HIDE_CURSOR
                },
                1,
                1,
            ),
        ]
    } else {
        Seq::empty()
    }) + (if prev.cursor_col != next.cursor_col || prev.cursor_row != next.cursor_row {
        seq![bare_op(diff_kind::MOVE_TO, next.cursor_col, next.cursor_row)]
    } else {
        Seq::empty()
    })
}

/// Both buffers carry one stored hash per row, so unchanged rows can be
/// skipped by their hashes.
pub open spec fn use_fast(prev: BufferView, next: BufferView) -> bool {
    match (prev.row_hashes, next.row_hashes) {
        (Some(ph), Some(nh)) => ph.len() == next.rows && nh.len() == next.rows,
        _ => false,
    }
}

/// The differ's result: the operations and whether a full repaint is
/// needed (the dimensions changed).
pub open spec fn diff_spec(prev: BufferView, next: BufferView) -> (Seq<OpView>, bool) {
    if prev.cols != next.cols || prev.rows != next.rows {
        (Seq::empty(), true)
    } else {
        let writes = if use_fast(prev, next) {
            hashed_writes(
                prev.cells,
                next.cells,
                prev.row_hashes->0,
                next.row_hashes->0,
                next.cols as int,
                next.rows as int,
            )
        } else {
            all_writes(prev.cells, next.cells, next.cols as int, next.rows as int)
        };
        (writes + cursor_ops(prev, next), false)
    }
}

/// A one-code sequence when `on`, else nothing.
spec fn opt_one(on: bool, v: u32) -> Seq<u32> {
    if on {
        seq![v]
    } else {
        Seq::empty()
    }
}

/// Every code of an optional colour is a colour code (30 or more).
proof fn lemma_colour_codes_high(name: Seq<char>)
    ensures
        forall|i: int| 0 <= i < opt_code(fg_code_spec(name)).len() ==> #[trigger] opt_code(fg_code_spec(name))[i] >= 30,
        forall|i: int| 0 <= i < opt_code(bg_code_spec(name)).len() ==> #[trigger] opt_code(bg_code_spec(name))[i] >= 30,
{
    reveal(fg_code_spec);
}

/// `x` occurs in `a + b` exactly when it occurs in `a` or in `b`.
proof fn lemma_contains_concat(a: Seq<u32>, b: Seq<u32>, x: u32)
    ensures
        (a + b).contains(x) <==> a.contains(x) || b.contains(x),
{
    if a.contains(x) {
        let i = choose|i: int| 0 <= i < a.len() && a[i] == x;
        assert((a + b)[i] == x);
    }
    if b.contains(x) {
        let i = choose|i: int| 0 <= i < b.len() && b[i] == x;
        assert((a + b)[a.len() + i] == x);
    }
    if (a + b).contains(x) {
        let i = choose|i: int| 0 <= i < (a + b).len() && (a + b)[i] == x;
        if i < a.len() {
            assert(a[i] == x);
        } else {
            assert(b[i - a.len()] == x);
        }
    }
}

/// `x` occurs in a one-code option exactly when it is on with that code.
proof fn lemma_contains_opt(on: bool, v: u32, x: u32)
    ensures
        opt_one(on, v).contains(x) <==> on && v == x,
{
    if on {
        assert(opt_one(on, v)[0] == v);
    }
}

/// The SGR codes of a style name its attributes, each by its own code:
/// bold is 1, dim 2, italic 3, underline 4; each occurs exactly when the
/// attribute is set, and every other code is a colour code (30 or more).
pub proof fn law_sgr_codes_name_attributes(s: StyleView)
    ensures
        sgr_codes(s).contains(1u32) <==> s.bold,
        sgr_codes(s).contains(2u32) <==> s.dim,
        sgr_codes(s).contains(3u32) <==> s.italic,
        sgr_codes(s).contains(4u32) <==> s.underline,
        forall|i: int|
            0 <= i < sgr_codes(s).len() ==> 1 <= #[trigger] sgr_codes(s)[i] <= 4 || sgr_codes(s)[i] >= 30,
{
    let a = opt_one(s.bold, 1);
    let b = opt_one(s.dim, 2);
    let c = opt_one(s.italic, 3);
    let d = opt_one(s.underline, 4);
    let f = opt_code(fg_code_spec(s.fg));
    let g = opt_code(bg_code_spec(s.bg));
    assert(sgr_codes(s) =~= a + b + c + d + f + g);
    lemma_colour_codes_high(s.fg);
    lemma_colour_codes_high(s.bg);
    let fg = f + g;
    assert forall|i: int| 0 <= i < fg.len() implies #[trigger] fg[i] >= 30 by {
        if i < f.len() {
            assert(fg[i] == f[i]);
        } else {
            assert(fg[i] == g[i - f.len()]);
        }
    }
    assert(a + b + c + d + f + g =~= (a + b + c + d) + fg);
    let x = a + b + c + d;
    assert forall|i: int| 0 <= i < x.len() implies 1 <= #[trigger] x[i] <= 4 by {
        let ab = a + b;
        let abc = ab + c;
        assert(forall|j: int| 0 <= j < a.len() ==> a[j] == 1);
        assert(forall|j: int| 0 <= j < b.len() ==> b[j] == 2);
        assert(forall|j: int| 0 <= j < c.len() ==> c[j] == 3);
        assert(forall|j: int| 0 <= j < d.len() ==> d[j] == 4);
        if i < abc.len() {
            if i < ab.len() {
                if i < a.len() {
                    assert(x[i] == a[i]);
                } else {
                    assert(x[i] == b[i - a.len()]);
                }
            } else {
                assert(x[i] == c[i - ab.len()]);
            }
        } else {
            assert(x[i] == d[i - abc.len()]);
        }
    }
    assert forall|i: int| 0 <= i < (x + fg).len() implies 1 <= #[trigger] (x + fg)[i] <= 4 || (x
        + fg)[i] >= 30 by {
        if i < x.len() {
            assert((x + fg)[i] == x[i]);
        } else {
            assert((x + fg)[i] == fg[i - x.len()]);
        }
    }
    assert forall|v: u32| 1 <= v <= 4 implies !fg.contains(v) by {
        if fg.contains(v) {
            let i = choose|i: int| 0 <= i < fg.len() && fg[i] == v;
            assert(fg[i] >= 30);
        }
    }
    lemma_contains_concat(x, fg, 1);
    lemma_contains_concat(x, fg, 2);
    lemma_contains_concat(x, fg, 3);
    lemma_contains_concat(x, fg, 4);
    lemma_contains_concat(a + b + c, d, 1);
    lemma_contains_concat(a + b + c, d, 2);
    lemma_contains_concat(a + b + c, d, 3);
    lemma_contains_concat(a + b + c, d, 4);
    lemma_contains_concat(a + b, c, 1);
    lemma_contains_concat(a + b, c, 2);
    lemma_contains_concat(a + b, c, 3);
    lemma_contains_concat(a + b, c, 4);
    lemma_contains_concat(a, b, 1);
    lemma_contains_concat(a, b, 2);
    lemma_contains_concat(a, b, 3);
    lemma_contains_concat(a, b, 4);
    lemma_contains_opt(s.bold, 1, 1);
    lemma_contains_opt(s.bold, 1, 2);
    lemma_contains_opt(s.bold, 1, 3);
    lemma_contains_opt(s.bold, 1, 4);
    lemma_contains_opt(s.dim, 2, 1);
    lemma_contains_opt(s.dim, 2, 2);
    lemma_contains_opt(s.dim, 2, 3);
    lemma_contains_opt(s.dim, 2, 4);
    lemma_contains_opt(s.italic, 3, 1);
    lemma_contains_opt(s.italic, 3, 2);
    lemma_contains_opt(s.italic, 3, 3);
    lemma_contains_opt(s.italic, 3, 4);
    lemma_contains_opt(s.underline, 4, 1);
    lemma_contains_opt(s.underline, 4, 2);
    lemma_contains_opt(s.underline, 4, 3);
    lemma_contains_opt(s.underline, 4, 4);
}

/// The rows drawn so far are a prefix of the rows drawn later.
proof fn lemma_rows_out_prefix(b: BufferView, r: int, k: int)
    requires
        0 <= r <= k,
    ensures
        rows_out(b, k).take(rows_out(b, r).len() as int) == rows_out(b, r),
        rows_out(b, r).len() <= rows_out(b, k).len(),
    decreases k - r,
{
    if r < k {
        lemma_rows_out_prefix(b, r, k - 1);
        let p = rows_out(b, r);
        let q = rows_out(b, k - 1);
        assert(rows_out(b, k) == q + move_to_spec(1, k as i64) + row_out(b, k));
        assert(rows_out(b, k).take(p.len() as int) =~= q.take(p.len() as int));
    } else {
        assert(rows_out(b, k).take(rows_out(b, k).len() as int) =~= rows_out(b, k));
    }
}

/// A full repaint draws each row at its own place: it starts by hiding
/// the cursor, and every row `r` of a non-empty buffer is drawn right
/// after `ESC [ r ; 1 H`, the move to column 1 of row `r`.
pub proof fn law_full_render_places_each_row(b: BufferView, r: int)
    requires
        b.cols >= 1,
        b.rows >= 1,
        1 <= r <= b.rows,
    ensures
        render_full_spec(b).take(ANSI_CURSOR_HIDE@.len() as int) == ANSI_CURSOR_HIDE@,
        ({
            let out = render_full_spec(b);
            let mv = "\x1b["@ + decimal(r) + ";1H"@;
            let i: int = (ANSI_CURSOR_HIDE@.len() + rows_out(b, r - 1).len()) as int;
            let j: int = i + mv.len();
            &&& out.subrange(i, j) == mv
            &&& out.subrange(j, j + row_out(b, r).len()) == row_out(b, r)
        }),
{
    reveal_strlit(";1H");
    let out = render_full_spec(b);
    let h = ANSI_CURSOR_HIDE@;
    let mv = "\x1b["@ + decimal(r) + ";1H"@;
    let row = row_out(b, r);
    let before = rows_out(b, r - 1);
    assert(decimal(1) =~= seq!['1']);
    assert(move_to_spec(1, r as i64) =~= mv);
    assert(rows_out(b, r) == before + mv + row);
    lemma_rows_out_prefix(b, r, b.rows as int);
    let all = rows_out(b, b.rows as int);
    let tail = all.skip(rows_out(b, r).len() as int);
    assert(all =~= rows_out(b, r) + tail);
    let rest = move_to_spec(b.cursor_col, b.cursor_row) + (if b.cursor_visible {
        ANSI_CURSOR_SHOW@
    } else {
        Seq::empty()
    });
    assert(out =~= h + before + mv + row + (tail + rest));
    let i: int = (h.len() + before.len()) as int;
    let j: int = i + mv.len();
    assert(out.subrange(i, j) =~= mv);
    assert(out.subrange(j, j + row.len()) =~= row);
    assert(out.take(h.len() as int) =~= h);
}

// ── Rendering ────────────────────────────────────────────────────

/// Appends `ESC [ row ; col H`.
pub fn cursor_move_to(out: &mut String, col: i64, row: i64)
    ensures
        final(out)@ == old(out)@ + move_to_spec(col, row),
{
    push_str(out, "\x1b[");
    push_decimal(out, row);
    push_char(out, ';');
    push_decimal(out, col);
    push_char(out, 'H');
    proof {
        assert(final(out)@ =~= old(out)@ + move_to_spec(col, row));
    }
}

/// SGR foreground code of a colour name (`"red"` is 31), or `None` for
/// an unknown or empty name.
pub fn fg_code(name: &str) -> (r: Option<u32>)
    ensures
        r == fg_code_spec(name@),
        r matches Some(c) ==> c <= 97,
{
    reveal(fg_code_spec);
    if str_eq(name, "black") {
        Some(30)
    } else if str_eq(name, "red") {
        Some(31)
    } else if str_eq(name, "green") {
        Some(32)
    } else if str_eq(name, "yellow") {
        Some(33)
    } else if str_eq(name, "blue") {
        Some(34)
    } else if str_eq(name, "magenta") {
        Some(35)
    } else if str_eq(name, "cyan") {
        Some(36)
    } else if str_eq(name, "white") {
        Some(37)
    } else if str_eq(name, "bright_black") {
        Some(90)
    } else if str_eq(name, "bright_red") {
        Some(91)
    } else if str_eq(name, "bright_green") {
        Some(92)
    } else if str_eq(name, "bright_yellow") {
        Some(93)
    } else if str_eq(name, "bright_blue") {
        Some(94)
    } else if str_eq(name, "bright_magenta") {
        Some(95)
    } else if str_eq(name, "bright_cyan") {
        Some(96)
    } else if str_eq(name, "bright_white") {
        Some(97)
    } else {
        None
    }
}

/// SGR background code of a colour name (`"red"` is 41), or `None`.
pub fn bg_code(name: &str) -> (r: Option<u32>)
    ensures
        r == bg_code_spec(name@),
{
    match fg_code(name) {
        Some(c) => Some(c + 10),
        None => None,
    }
}

/// Appends the codes separated by `;`.
fn push_codes(out: &mut String, codes: &Vec<u32>)
    ensures
        final(out)@ == old(out)@ + join_codes(codes@),
{
    let mut i: usize = 0;
    proof {
        assert(codes@.take(0) =~= Seq::<u32>::empty());
        assert(old(out)@ + join_codes(Seq::<u32>::empty()) =~= old(out)@);
    }
    while i < codes.len()
        invariant
            i <= codes@.len(),
            out@ == old(out)@ + join_codes(codes@.take(i as int)),
        decreases codes@.len() - i,
    {
        let ghost pre = out@;
        if i > 0 {
            push_char(out, ';');
        }
        push_digits(out, codes[i] as u64);
        proof {
            let t = codes@.take(i + 1);
            assert(t.drop_last() =~= codes@.take(i as int));
            assert(t.last() == codes@[i as int]);
            if i == 0 {
                assert(t.len() == 1);
                assert(out@ =~= old(out)@ + join_codes(t));
            } else {
                assert(out@ =~= old(out)@ + join_codes(t));
            }
        }
        i = i + 1;
    }
    proof {
        assert(codes@.take(codes@.len() as int) =~= codes@);
    }
}

/// The SGR codes of a style.
fn style_codes(style: &CellStyle) -> (codes: Vec<u32>)
    ensures
        codes@ == sgr_codes(style@),
{
    let ghost s = style@;
    let mut codes: Vec<u32> = Vec::new();
    if style.bold {
        codes.push(1);
    }
    if style.dim {
        codes.push(2);
    }
    if style.italic {
        codes.push(3);
    }
    if style.underline {
        codes.push(4);
    }
    proof {
        assert(codes@ =~= (if s.bold { seq![1u32] } else { Seq::empty() }) + (if s.dim {
            seq![2u32]
        } else {
            Seq::empty()
        }) + (if s.italic { seq![3u32] } else { Seq::empty() }) + (if s.underline {
            seq![4u32]
        } else {
            Seq::empty()
        }));
    }
    let ghost attrs = codes@;
    match fg_code(style.fg.as_str()) {
        Some(c) => codes.push(c),
        None => {},
    }
    let ghost with_fg = codes@;
    proof {
        assert(with_fg =~= attrs + opt_code(fg_code_spec(s.fg)));
    }
    match bg_code(style.bg.as_str()) {
        Some(c) => codes.push(c),
        None => {},
    }
    proof {
        assert(codes@ =~= with_fg + opt_code(bg_code_spec(s.bg)));
    }
    codes
}

/// Appends `text` drawn with `style`: bare when the style yields no SGR
/// code (an empty style, or only unknown colour names), else
/// `ESC [ codes m` + text + `ESC [0m`.
pub fn write_styled(out: &mut String, text: &str, style: &CellStyle)
    ensures
        final(out)@ == old(out)@ + styled_spec(text@, style@),
{
    if style.is_empty() {
        push_str(out, text);
        return;
    }
    let codes = style_codes(style);
    if codes.len() == 0 {
        push_str(out, text);
        return;
    }
    push_str(out, "\x1b[");
    push_codes(out, &codes);
    push_char(out, 'm');
    push_str(out, text);
    push_str(out, ANSI_RESET);
    proof {
        assert(final(out)@ =~= old(out)@ + styled_spec(text@, style@));
    }
}

/// Draws the whole buffer: hide the cursor, each row from its first
/// column, then the cursor's place, then show it when visible. Empty
/// cell text draws as a space; contiguous cells of one style are drawn
/// as one run; a wide character's placeholder is not drawn (the
/// character already covers its column). A buffer with no columns or no rows draws
/// nothing at all.
pub fn render_full(buf: &BufferState) -> (s: String)
    requires
        buf@.wf(),
    ensures
        s@ == render_full_spec(buf@),
{
    if buf.cols == 0 || buf.rows == 0 {
        return String::new();
    }
    let ghost b = buf@;
    let n = buf.cells.len();
    let mut out = String::new();
    push_str(&mut out, ANSI_CURSOR_HIDE);
    let mut r: i64 = 0;
    proof {
        assert(out@ =~= ANSI_CURSOR_HIDE@ + rows_out(b, 0));
    }
    while r < buf.rows
        invariant
            b == buf@,
            b.wf(),
            n == b.cells.len(),
            b.cols != 0,
            0 <= r,
            r <= (if b.rows >= 0 { b.rows } else { 0 }),
            out@ == ANSI_CURSOR_HIDE@ + rows_out(b, r as int),
        decreases b.rows - r,
    {
        cursor_move_to(&mut out, 1, r + 1);
        let ghost line_start = out@;
        let cols = buf.cols;
        let mut c: i64 = 0;
        let mut has = false;
        let mut run = String::new();
        let mut run_style = CellStyle::empty();
        while c < cols
            invariant
                b == buf@,
                b.wf(),
                n == b.cells.len(),
                cols == b.cols,
                0 <= r < b.rows,
                0 <= c,
                cols >= 0 ==> c <= cols,
                out@ + line_out(b.cells, cols as int, r as int, c as int, has, run@, run_style@)
                    == line_start + row_out(b, r + 1),
            decreases cols - c,
        {
            proof {
                lemma_index_in_range(b.cols as int, b.rows as int, c + 1, r + 1);
            }
            let idx: usize = (r as usize) * (cols as usize) + (c as usize);
            let cell = &buf.cells[idx];
            let ghost cv = cell@;
            proof {
                assert(b.cells[r * cols + c] == cv);
            }
            let step: i64 = if c + 1 < cols && cell_is_wide_lead(cell.text.as_str()) {
                2
            } else {
                1
            };
            let ghost before = line_out(b.cells, cols as int, r as int, c as int, has, run@, run_style@);
            let ghost old_run = run@;
            if has && styles_equal(&cell.style, &run_style) {
                if cell.text.as_str().is_empty() {
                    push_char(&mut run, ' ');
                } else {
                    push_str(&mut run, cell.text.as_str());
                }
                proof {
                    assert(run@ =~= old_run + drawn_text(cv));
                }
            } else {
                if has {
                    write_styled(&mut out, run.as_str(), &run_style);
                }
                run = String::new();
                if cell.text.as_str().is_empty() {
                    push_char(&mut run, ' ');
                } else {
                    push_str(&mut run, cell.text.as_str());
                }
                run_style = cell.style.duplicate();
                has = true;
                proof {
                    assert(run@ =~= drawn_text(cv));
                }
            }
            c = c + step;
        }
        if has {
            write_styled(&mut out, run.as_str(), &run_style);
        }
        proof {
            assert(out@ =~= line_start + row_out(b, r + 1));
            assert(out@ =~= ANSI_CURSOR_HIDE@ + rows_out(b, r + 1));
        }
        r = r + 1;
    }
    proof {
        if b.rows < 0 {
            assert(rows_out(b, b.rows as int) == Seq::<char>::empty());
            assert(rows_out(b, r as int) == Seq::<char>::empty());
        }
    }
    cursor_move_to(&mut out, buf.cursor_col, buf.cursor_row);
    if buf.cursor_visible {
        push_str(&mut out, ANSI_CURSOR_SHOW);
    }
    proof {
        assert(out@ =~= render_full_spec(b));
    }
    out
}

/// Appends the output of one diff operation.
pub fn render_one_op(out: &mut String, op: &DiffOp)
    ensures
        final(out)@ == old(out)@ + op_out(op@),
{
    if op.kind == diff_kind::MOVE_TO {
        cursor_move_to(out, op.col, op.row);
    } else if op.kind == diff_kind::CLEAR_LINE {
        push_str(out, ANSI_CLEAR_LINE);
    } else if op.kind == diff_kind::SHOW_CURSOR {
        push_str(out, ANSI_CURSOR_SHOW);
    } else if op.kind == diff_kind::HIDE_CURSOR {
        push_str(out, ANSI_CURSOR_HIDE);
    } else if op.kind == diff_kind::WRITE {
        cursor_move_to(out, op.col, op.row);
        write_styled(out, op.text.as_str(), &op.style);
        proof {
            assert(final(out)@ =~= old(out)@ + op_out(op@));
        }
    } else {
        proof {
            assert(final(out)@ =~= old(out)@ + op_out(op@));
        }
    }
}

/// The output of the operations, in order.
pub fn render_ops_to_string(ops: &[DiffOp]) -> (s: String)
    ensures
        s@ == ops_out(ops_view(ops@)),
{
    let mut out = String::new();
    let mut i: usize = 0;
    proof {
        assert(ops_view(ops@).take(0) =~= Seq::<OpView>::empty());
    }
    while i < ops.len()
        invariant
            i <= ops@.len(),
            out@ == ops_out(ops_view(ops@).take(i as int)),
        decreases ops@.len() - i,
    {
        render_one_op(&mut out, &ops[i]);
        proof {
            let t = ops_view(ops@).take(i + 1);
            assert(t.drop_last() =~= ops_view(ops@).take(i as int));
            assert(t.last() == ops@[i as int]@);
        }
        i = i + 1;
    }
    proof {
        assert(ops_view(ops@).take(ops@.len() as int) =~= ops_view(ops@));
    }
    out
}

// ── Diffing ──────────────────────────────────────────────────────

/// Whether two styles are the same.
fn styles_equal(a: &CellStyle, b: &CellStyle) -> (r: bool)
    ensures
        r == (a@ == b@),
{
    a.fg == b.fg && a.bg == b.bg && a.bold == b.bold && a.dim == b.dim && a.underline
        == b.underline && a.italic == b.italic
}

/// Whether two cells hold the same text in the same style.
pub fn cells_equal(a: &Cell, b: &Cell) -> (r: bool)
    ensures
        r == (a@ == b@),
{
    a.text == b.text && styles_equal(&a.style, &b.style)
}

/// Appends the writes for the changed units of 0-based row `r`:
/// adjacent changed units of one style make one write; a wide character
/// and its placeholder are compared and written as one unit.
pub fn diff_row(prev: &BufferState, next: &BufferState, r: i64, cols: i64, ops: &mut Vec<DiffOp>)
    requires
        prev@.wf(),
        next@.wf(),
        prev@.cols == cols,
        next@.cols == cols,
        prev@.rows == next@.rows,
        0 <= r < next@.rows,
    ensures
        ops_view(final(ops)@) == ops_view(old(ops)@) + row_writes(
            prev@.cells,
            next@.cells,
            cols as int,
            r as int,
        ),
{
    let ghost pc = prev@.cells;
    let ghost nc = next@.cells;
    let n = next.cells.len();
    let m = prev.cells.len();
    let mut c: i64 = 0;
    let mut has = false;
    let mut start: i64 = 0;
    let mut run = String::new();
    let mut run_style = CellStyle::empty();
    while c < cols
        invariant
            prev@.wf(),
            next@.wf(),
            pc == prev@.cells,
            nc == next@.cells,
            n == nc.len(),
            m == pc.len(),
            prev@.cols == cols,
            next@.cols == cols,
            prev@.rows == next@.rows,
            0 <= r < next@.rows,
            0 <= c,
            cols >= 0 ==> c <= cols,
            0 <= start <= c,
            ops_view(ops@) + row_diff(pc, nc, cols as int, r as int, c as int, has, start as int, run@, run_style@)
                == ops_view(old(ops)@) + row_writes(pc, nc, cols as int, r as int),
        decreases cols - c,
    {
        proof {
            lemma_index_in_range(cols as int, next@.rows as int, c + 1, r + 1);
        }
        let idx: usize = (r as usize) * (cols as usize) + (c as usize);
        let ghost i = r * cols + c;
        proof {
            assert(idx as int == i);
            assert(prev.cells@[idx as int]@ == pc[i]);
            assert(next.cells@[idx as int]@ == nc[i]);
        }
        let wide = c + 1 < cols && cell_is_wide_lead(next.cells[idx].text.as_str());
        let step: i64 = if wide {
            2
        } else {
            1
        };
        let mut changed = !cells_equal(&prev.cells[idx], &next.cells[idx]);
        if wide {
            proof {
                lemma_index_in_range(cols as int, next@.rows as int, c + 2, r + 1);
                assert(prev.cells@[idx + 1]@ == pc[i + 1]);
                assert(next.cells@[idx + 1]@ == nc[i + 1]);
            }
            if !cells_equal(&prev.cells[idx + 1], &next.cells[idx + 1]) {
                changed = true;
            }
        }
        proof {
            assert(step == unit_step(nc, cols as int, r as int, c as int));
            assert(changed == unit_changed(pc, nc, cols as int, r as int, c as int));
        }
        let ghost before = ops_view(ops@);
        let ghost old_run = run@;
        if !changed {
            if has {
                let op = DiffOp {
                    kind: diff_kind::WRITE,
                    col: start,
                    row: r + 1,
                    text: run,
                    style: run_style.duplicate(),
                };
                ops.push(op);
                proof {
                    assert(ops_view(ops@) =~= before + flush_write(has, start as int, r as int, old_run, run_style@));
                }
            } else {
                proof {
                    assert(ops_view(ops@) =~= before + flush_write(has, start as int, r as int, old_run, run_style@));
                }
            }
            has = false;
            start = 0;
            run = String::new();
            run_style = CellStyle::empty();
        } else if has && styles_equal(&next.cells[idx].style, &run_style) {
            push_str(&mut run, next.cells[idx].text.as_str());
        } else {
            if has {
                let op = DiffOp {
                    kind: diff_kind::WRITE,
                    col: start,
                    row: r + 1,
                    text: run,
                    style: run_style.duplicate(),
                };
                ops.push(op);
                proof {
                    assert(ops_view(ops@) =~= before + flush_write(has, start as int, r as int, old_run, run_style@));
                }
            } else {
                proof {
                    assert(ops_view(ops@) =~= before + flush_write(has, start as int, r as int, old_run, run_style@));
                }
            }
            has = true;
            start = c + 1;
            run = next.cells[idx].text.clone();
            run_style = next.cells[idx].style.duplicate();
        }
        c = c + step;
    }
    let ghost before = ops_view(ops@);
    if has {
        let op = DiffOp { kind: diff_kind::WRITE, col: start, row: r + 1, text: run, style: run_style.duplicate() };
        ops.push(op);
        proof {
            assert(ops_view(ops@) =~= before + flush_write(true, start as int, r as int, op.text@, op.style@));
        }
    } else {
        proof {
            assert(ops_view(ops@) =~= before);
        }
    }
}

/// The operations that turn the screen showing `prev` into one showing
/// `next`, and whether a full repaint is needed instead (the dimensions
/// differ; then there are no operations). Cells are compared row by row
/// — only rows whose stored hashes differ, when both buffers carry one
/// hash per row — and each run of adjacent changed cells in one style
/// becomes one write (a wide character and its placeholder count as one
/// cell, written as the character); then the cursor's visibility and
/// position follow.
pub fn diff_buffers(prev: &BufferState, next: &BufferState) -> (r: (Vec<DiffOp>, bool))
    requires
        prev@.wf(),
        next@.wf(),
    ensures
        (ops_view(r.0@), r.1) == diff_spec(prev@, next@),
{
    if prev.cols != next.cols || prev.rows != next.rows {
        return (Vec::new(), true);
    }
    let cols = next.cols;
    let rows = next.rows;
    let mut ops: Vec<DiffOp> = Vec::new();
    let fast = match (&prev.row_hashes, &next.row_hashes) {
        (Some(ph), Some(nh)) => ph.len() as i128 == rows as i128 && nh.len() as i128 == rows as i128,
        _ => false,
    };
    if fast {
        let ph = match &prev.row_hashes {
            Some(h) => h,
            None => {
                return (Vec::new(), true);
            },
        };
        let nh = match &next.row_hashes {
            Some(h) => h,
            None => {
                return (Vec::new(), true);
            },
        };
        let phl = ph.len();
        let nhl = nh.len();
        let mut k: i64 = 0;
        while k < rows
            invariant
                phl == ph@.len(),
                nhl == nh@.len(),
                prev@.wf(),
                next@.wf(),
                prev@.cols == cols,
                next@.cols == cols,
                prev@.rows == rows,
                next@.rows == rows,
                prev@.row_hashes == Some(ph@),
                next@.row_hashes == Some(nh@),
                ph@.len() == rows,
                nh@.len() == rows,
                0 <= k,
                k <= (if rows >= 0 { rows } else { 0 }),
                ops_view(ops@) == hashed_writes(
                    prev@.cells,
                    next@.cells,
                    ph@,
                    nh@,
                    cols as int,
                    k as int,
                ),
            decreases rows - k,
        {
            let ghost before = ops_view(ops@);
            if ph[k as usize] != nh[k as usize] {
                diff_row(prev, next, k, cols, &mut ops);
            }
            proof {
                assert(hashed_writes(prev@.cells, next@.cells, ph@, nh@, cols as int, k + 1)
                    == before + (if ph@[k as int] != nh@[k as int] {
                    row_writes(prev@.cells, next@.cells, cols as int, k as int)
                } else {
                    Seq::empty()
                }));
                if ph@[k as int] == nh@[k as int] {
                    assert(ops_view(ops@) =~= before + Seq::<OpView>::empty());
                }
            }
            k = k + 1;
        }
        proof {
            if rows < 0 {
                assert(hashed_writes(prev@.cells, next@.cells, ph@, nh@, cols as int, rows as int)
                    == Seq::<OpView>::empty());
                assert(hashed_writes(prev@.cells, next@.cells, ph@, nh@, cols as int, k as int)
                    == Seq::<OpView>::empty());
            }
        }
    } else {
        let mut k: i64 = 0;
        while k < rows
            invariant
                prev@.wf(),
                next@.wf(),
                prev@.cols == cols,
                next@.cols == cols,
                prev@.rows == rows,
                next@.rows == rows,
                0 <= k,
                k <= (if rows >= 0 { rows } else { 0 }),
                ops_view(ops@) == all_writes(prev@.cells, next@.cells, cols as int, k as int),
            decreases rows - k,
        {
            diff_row(prev, next, k, cols, &mut ops);
            k = k + 1;
        }
        proof {
            if rows < 0 {
                assert(all_writes(prev@.cells, next@.cells, cols as int, rows as int)
                    == Seq::<OpView>::empty());
                assert(all_writes(prev@.cells, next@.cells, cols as int, k as int)
                    == Seq::<OpView>::empty());
            }
        }
    }
    let ghost writes = ops_view(ops@);
    if prev.cursor_visible != next.cursor_visible {
        let kind = if next.cursor_visible {
            diff_kind::SHOW_CURSOR
        } else {
            diff_kind::HIDE_CURSOR
        };
        ops.push(DiffOp { kind, col: 1, row: 1, text: String::new(), style: CellStyle::empty() });
    }
    if prev.cursor_col != next.cursor_col || prev.cursor_row != next.cursor_row {
        ops.push(
            DiffOp {
                kind: diff_kind::MOVE_TO,
                col: next.cursor_col,
                row: next.cursor_row,
                text: String::new(),
                style: CellStyle::empty(),
            },
        );
    }
    proof {
        assert(ops_view(ops@) =~= writes + cursor_ops(prev@, next@));
    }
    (ops, false)
}

/// The text of one frame: a full repaint of `next` when the dimensions
/// changed, else the output of the diff operations.
pub fn render_frame_text(prev: &BufferState, next: &BufferState) -> (s: String)
    requires
        prev@.wf(),
        next@.wf(),
    ensures
        s@ == (if diff_spec(prev@, next@).1 {
            render_full_spec(next@)
        } else {
            ops_out(diff_spec(prev@, next@).0)
        }),
{
    let (ops, requires_full) = diff_buffers(prev, next);
    if requires_full {
        render_full(next)
    } else {
        render_ops_to_string(ops.as_slice())
    }
}

} // verus!
