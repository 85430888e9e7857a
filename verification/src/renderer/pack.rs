//! Reading screen buffers, cells, styles and diff operations out of host
//! packs, and building packs from them. A missing field takes its
//! default; a field of the wrong kind is refused with `InvalidArg`.

use vstd::prelude::*;

use crate::host::{bool_of, find_field, int_of, lemma_lookup_at, lookup, names_are, str_of, HostField, HostValue};
use crate::renderer::allocation::with_hashes;
use crate::renderer::state::{
    cell_count, cells_view, diff_kind, empty_style, ops_view, BufferState, BufferView, Cell,
    CellStyle, CellView, DiffOp, OpView, RendererError, StyleView,
};
use crate::text::{digits_of, one_char, push_digits, push_str};

verus! {

// ── Reading fields ───────────────────────────────────────────────

/// Whether `r` is an `InvalidArg` error with detail `d`.
pub open spec fn is_invalid_arg<T>(r: Result<T, RendererError>, d: Seq<char>) -> bool {
    r matches Err(RendererError::InvalidArg(m)) && m@ == d
}

/// A string field: its text, `default` when absent, else an error.
pub open spec fn str_field(fields: Seq<HostField>, name: Seq<char>, default: Seq<char>) -> Result<
    Seq<char>,
    Seq<char>,
> {
    match lookup(fields, name) {
        None => Ok(default),
        Some(v) => match str_of(v) {
            Some(s) => Ok(s),
            None => Err(name + " must be a Str"@),
        },
    }
}

/// An integer field: its value, `default` when absent, else an error.
pub open spec fn int_field(fields: Seq<HostField>, name: Seq<char>, default: i64) -> Result<
    i64,
    Seq<char>,
> {
    match lookup(fields, name) {
        None => Ok(default),
        Some(v) => match int_of(v) {
            Some(i) => Ok(i),
            None => Err(name + " must be an Int"@),
        },
    }
}

/// A boolean field: its value, `default` when absent, else an error.
pub open spec fn bool_field(fields: Seq<HostField>, name: Seq<char>, default: bool) -> Result<
    bool,
    Seq<char>,
> {
    match lookup(fields, name) {
        None => Ok(default),
        Some(v) => match bool_of(v) {
            Some(b) => Ok(b),
            None => Err(name + " must be a Bool"@),
        },
    }
}

/// `InvalidArg` with the detail `a` followed by `b`.
fn invalid(a: &str, b: &str) -> (e: RendererError)
    ensures
        e matches RendererError::InvalidArg(m) && m@ == a@ + b@,
{
    let mut m = String::new();
    push_str(&mut m, a);
    push_str(&mut m, b);
    RendererError::InvalidArg(m)
}

fn field_str(fields: &Vec<HostField>, name: &str, default: &str) -> (r: Result<String, RendererError>)
    ensures
        match str_field(fields@, name@, default@) {
            Ok(s) => r matches Ok(x) && x@ == s,
            Err(d) => is_invalid_arg(r, d),
        },
{
    match find_field(fields, name) {
        None => Ok(String::from_str(default)),
        Some(i) => match &fields[i].value {
            HostValue::Str(s) => Ok(s.clone()),
            _ => Err(invalid(name, " must be a Str")),
        },
    }
}

fn field_int(fields: &Vec<HostField>, name: &str, default: i64) -> (r: Result<i64, RendererError>)
    ensures
        match int_field(fields@, name@, default) {
            Ok(x) => r == Ok::<i64, RendererError>(x),
            Err(d) => is_invalid_arg(r, d),
        },
{
    match find_field(fields, name) {
        None => Ok(default),
        Some(i) => match &fields[i].value {
            HostValue::Int(x) => Ok(*x),
            _ => Err(invalid(name, " must be an Int")),
        },
    }
}

fn field_bool(fields: &Vec<HostField>, name: &str, default: bool) -> (r: Result<bool, RendererError>)
    ensures
        match bool_field(fields@, name@, default) {
            Ok(x) => r == Ok::<bool, RendererError>(x),
            Err(d) => is_invalid_arg(r, d),
        },
{
    match find_field(fields, name) {
        None => Ok(default),
        Some(i) => match &fields[i].value {
            HostValue::Bool(x) => Ok(*x),
            _ => Err(invalid(name, " must be a Bool")),
        },
    }
}

// ── Styles and cells ─────────────────────────────────────────────

/// The style read from a pack's fields, in the order `fg`, `bg`, `bold`,
/// `dim`, `underline`, `italic` (the first bad field is reported).
pub open spec fn style_of(fields: Seq<HostField>) -> Result<StyleView, Seq<char>> {
    match str_field(fields, "fg"@, ""@) {
        Err(e) => Err(e),
        Ok(fg) => match str_field(fields, "bg"@, ""@) {
            Err(e) => Err(e),
            Ok(bg) => match bool_field(fields, "bold"@, false) {
                Err(e) => Err(e),
                Ok(bold) => match bool_field(fields, "dim"@, false) {
                    Err(e) => Err(e),
                    Ok(dim) => match bool_field(fields, "underline"@, false) {
                        Err(e) => Err(e),
                        Ok(underline) => match bool_field(fields, "italic"@, false) {
                            Err(e) => Err(e),
                            Ok(italic) => Ok(StyleView { fg, bg, bold, dim, underline, italic }),
                        },
                    },
                },
            },
        },
    }
}

/// The style a value stands for.
pub open spec fn style_spec(v: HostValue) -> Result<StyleView, Seq<char>> {
    match v {
        HostValue::Pack(fs) => style_of(fs@),
        _ => Err("style must be a pack"@),
    }
}

/// The cell a value stands for: its style fields first, then `text`
/// (default one space; an empty text also becomes one space).
pub open spec fn cell_spec(v: HostValue) -> Result<CellView, Seq<char>> {
    match v {
        HostValue::Pack(fs) => match style_of(fs@) {
            Err(e) => Err(e),
            Ok(style) => match str_field(fs@, "text"@, " "@) {
                Err(e) => Err(e),
                Ok(t) => Ok(
                    CellView {
                        text: if t.len() == 0 {
                            seq![' ']
                        } else {
                            t
                        },
                        style,
                    },
                ),
            },
        },
        _ => Err("cell must be a pack"@),
    }
}

fn style_fields(fields: &Vec<HostField>) -> (r: Result<CellStyle, RendererError>)
    ensures
        match style_of(fields@) {
            Ok(s) => r matches Ok(x) && x@ == s,
            Err(d) => is_invalid_arg(r, d),
        },
{
    let fg = match field_str(fields, "fg", "") {
        Ok(x) => x,
        Err(e) => return Err(e),
    };
    let bg = match field_str(fields, "bg", "") {
        Ok(x) => x,
        Err(e) => return Err(e),
    };
    let bold = match field_bool(fields, "bold", false) {
        Ok(x) => x,
        Err(e) => return Err(e),
    };
    let dim = match field_bool(fields, "dim", false) {
        Ok(x) => x,
        Err(e) => return Err(e),
    };
    let underline = match field_bool(fields, "underline", false) {
        Ok(x) => x,
        Err(e) => return Err(e),
    };
    let italic = match field_bool(fields, "italic", false) {
        Ok(x) => x,
        Err(e) => return Err(e),
    };
    Ok(CellStyle { fg, bg, bold, dim, underline, italic })
}

/// Reads a style pack.
pub fn parse_style(value: &HostValue) -> (r: Result<CellStyle, RendererError>)
    ensures
        match style_spec(*value) {
            Ok(s) => r matches Ok(x) && x@ == s,
            Err(d) => is_invalid_arg(r, d),
        },
{
    match value {
        HostValue::Pack(fields) => style_fields(fields),
        _ => Err(RendererError::InvalidArg(String::from_str("style must be a pack"))),
    }
}

/// Reads a cell pack.
pub fn parse_cell(value: &HostValue) -> (r: Result<Cell, RendererError>)
    ensures
        match cell_spec(*value) {
            Ok(c) => r matches Ok(x) && x@ == c,
            Err(d) => is_invalid_arg(r, d),
        },
{
    match value {
        HostValue::Pack(fields) => {
            let style = match style_fields(fields) {
                Ok(s) => s,
                Err(e) => return Err(e),
            };
            let text = match field_str(fields, "text", " ") {
                Ok(t) => t,
                Err(e) => return Err(e),
            };
            let text = if text.as_str().is_empty() {
                one_char(' ')
            } else {
                text
            };
            Ok(Cell { text, style })
        },
        _ => Err(RendererError::InvalidArg(String::from_str("cell must be a pack"))),
    }
}

// ── Buffers ──────────────────────────────────────────────────────

/// The cells read from a list, in order (the first bad one is reported).
pub open spec fn cells_of(items: Seq<HostValue>) -> Result<Seq<CellView>, Seq<char>>
    decreases items.len(),
{
    if items.len() == 0 {
        Ok(Seq::empty())
    } else {
        match cells_of(items.drop_last()) {
            Err(e) => Err(e),
            Ok(cs) => match cell_spec(items.last()) {
                Err(e) => Err(e),
                Ok(c) => Ok(cs.push(c)),
            },
        }
    }
}

/// The number of cells a list must hold: `cols * rows` (none for a
/// non-positive dimension), capped at the largest `usize`.
pub open spec fn expected_cells(cols: i64, rows: i64) -> int {
    if cell_count(cols, rows) > usize::MAX {
        usize::MAX as int
    } else {
        cell_count(cols, rows)
    }
}

/// The detail of a cell-count mismatch.
pub open spec fn mismatch_detail(have: nat, expected: nat) -> Seq<char> {
    "buffer.cells length mismatch: have "@ + digits_of(have) + ", expected cols*rows="@ + digits_of(
        expected,
    )
}

/// The buffer read from a pack's fields: `cols`, `rows` (default 0),
/// `cursor_col`, `cursor_row` (default 1), `cursor_visible` (default
/// true), then the `cells` list, which must hold `cols * rows` cells.
/// A negative `cols` or `rows` is refused before anything else is read.
/// The buffer comes with its row hashes computed. A product of the
/// dimensions beyond the largest `usize` cannot be matched by any list
/// and is reported as a mismatch.
pub open spec fn buffer_fields(fs: Seq<HostField>) -> Result<BufferView, Seq<char>> {
    match int_field(fs, "cols"@, 0) {
        Err(e) => Err(e),
        Ok(cols) => match int_field(fs, "rows"@, 0) {
            Err(e) => Err(e),
            Ok(rows) => if cols < 0 || rows < 0 {
                Err(negative_dims_detail())
            } else { match int_field(fs, "cursor_col"@, 1) {
                Err(e) => Err(e),
                Ok(cc) => match int_field(fs, "cursor_row"@, 1) {
                    Err(e) => Err(e),
                    Ok(cr) => match bool_field(fs, "cursor_visible"@, true) {
                        Err(e) => Err(e),
                        Ok(cv) => match lookup(fs, "cells"@) {
                            None => Err("buffer.cells missing"@),
                            Some(HostValue::List(items)) => if items@.len() != expected_cells(cols, rows)
                                || cell_count(cols, rows) > usize::MAX {
                                Err(mismatch_detail(items@.len(), expected_cells(cols, rows) as nat))
                            } else {
                                match cells_of(items@) {
                                    Err(e) => Err(e),
                                    Ok(cells) => Ok(
                                        with_hashes(
                                            BufferView {
                                                cols,
                                                rows,
                                                cells,
                                                cursor_col: cc,
                                                cursor_row: cr,
                                                cursor_visible: cv,
                                                row_hashes: None,
                                            },
                                        ),
                                    ),
                                }
                            },
                            Some(_) => Err("buffer.cells must be a list"@),
                        },
                    },
                },
            } },
        },
    }
}

/// The detail reported for a buffer with a negative dimension.
pub open spec fn negative_dims_detail() -> Seq<char> {
    "buffer.cols and buffer.rows must not be negative"@
}

/// The buffer a value stands for.
pub open spec fn buffer_spec(v: HostValue) -> Result<BufferView, Seq<char>> {
    match v {
        HostValue::Pack(fs) => buffer_fields(fs@),
        _ => Err("buffer must be a pack"@),
    }
}

/// Once reading a prefix of a list failed, reading any longer prefix
/// fails the same way.
proof fn lemma_cells_err_persists(items: Seq<HostValue>, k: int, m: int)
    requires
        0 <= k <= m <= items.len(),
        cells_of(items.take(k)) is Err,
    ensures
        cells_of(items.take(m)) == cells_of(items.take(k)),
    decreases m - k,
{
    if m > k {
        lemma_cells_err_persists(items, k, m - 1);
        assert(items.take(m).drop_last() =~= items.take(m - 1));
    }
}

/// Reading cells yields one cell per item.
proof fn lemma_cells_len(items: Seq<HostValue>)
    requires
        cells_of(items) is Ok,
    ensures
        cells_of(items)->Ok_0.len() == items.len(),
    decreases items.len(),
{
    if items.len() > 0 {
        lemma_cells_len(items.drop_last());
    }
}

fn parse_cells(items: &Vec<HostValue>) -> (r: Result<Vec<Cell>, RendererError>)
    ensures
        match cells_of(items@) {
            Ok(cs) => r matches Ok(v) && cells_view(v@) == cs,
            Err(d) => is_invalid_arg(r, d),
        },
{
    let mut out: Vec<Cell> = Vec::new();
    let mut i: usize = 0;
    proof {
        assert(items@.take(0) =~= Seq::<HostValue>::empty());
        assert(cells_view(out@) =~= Seq::<CellView>::empty());
    }
    while i < items.len()
        invariant
            0 <= i <= items@.len(),
            cells_of(items@.take(i as int)) == Ok::<Seq<CellView>, Seq<char>>(cells_view(out@)),
        decreases items@.len() - i,
    {
        proof {
            assert(items@.take(i + 1).drop_last() =~= items@.take(i as int));
            assert(items@.take(i + 1).last() == items@[i as int]);
        }
        match parse_cell(&items[i]) {
            Ok(c) => {
                let ghost before = out@;
                out.push(c);
                proof {
                    assert(cells_view(out@) =~= cells_view(before).push(c@));
                }
            },
            Err(e) => {
                proof {
                    assert(cell_spec(items@[i as int]) is Err);
                    assert(cells_of(items@.take(i + 1)) == Err::<Seq<CellView>, Seq<char>>(cell_spec(items@[i as int])->Err_0));
                    lemma_cells_err_persists(items@, i + 1, items@.len() as int);
                    assert(items@.take(items@.len() as int) =~= items@);
                }
                return Err(e);
            },
        }
        i = i + 1;
    }
    proof {
        assert(items@.take(items@.len() as int) =~= items@);
    }
    Ok(out)
}

/// Reads a screen-buffer pack; the buffer comes with its row hashes
/// computed.
pub fn parse_buffer(value: &HostValue) -> (r: Result<BufferState, RendererError>)
    ensures
        match buffer_spec(*value) {
            Ok(b) => r matches Ok(x) && x@ == b && x@.wf(),
            Err(d) => is_invalid_arg(r, d),
        },
{
    let fields = match value {
        HostValue::Pack(fields) => fields,
        _ => return Err(RendererError::InvalidArg(String::from_str("buffer must be a pack"))),
    };
    let cols = match field_int(fields, "cols", 0) {
        Ok(x) => x,
        Err(e) => return Err(e),
    };
    let rows = match field_int(fields, "rows", 0) {
        Ok(x) => x,
        Err(e) => return Err(e),
    };
    if cols < 0 || rows < 0 {
        return Err(
            RendererError::InvalidArg(
                String::from_str("buffer.cols and buffer.rows must not be negative"),
            ),
        );
    }
    let cursor_col = match field_int(fields, "cursor_col", 1) {
        Ok(x) => x,
        Err(e) => return Err(e),
    };
    let cursor_row = match field_int(fields, "cursor_row", 1) {
        Ok(x) => x,
        Err(e) => return Err(e),
    };
    let cursor_visible = match field_bool(fields, "cursor_visible", true) {
        Ok(x) => x,
        Err(e) => return Err(e),
    };
    let items = match find_field(fields, "cells") {
        None => return Err(RendererError::InvalidArg(String::from_str("buffer.cells missing"))),
        Some(i) => match &fields[i].value {
            HostValue::List(items) => items,
            _ => return Err(
                RendererError::InvalidArg(String::from_str("buffer.cells must be a list")),
            ),
        },
    };
    let count: u128 = if cols <= 0 || rows <= 0 {
        0
    } else {
        proof {
            assert((cols as int) * (rows as int) <= 0x7fff_ffff_ffff_ffff * 0x7fff_ffff_ffff_ffffint)
                by (nonlinear_arith)
                requires
                    0 < cols <= 0x7fff_ffff_ffff_ffff,
                    0 < rows <= 0x7fff_ffff_ffff_ffff,
            ;
        }
        (cols as u128) * (rows as u128)
    };
    let expected: usize = if count > usize::MAX as u128 {
        usize::MAX
    } else {
        count as usize
    };
    if items.len() != expected || count > usize::MAX as u128 {
        let mut m = String::new();
        push_str(&mut m, "buffer.cells length mismatch: have ");
        push_digits(&mut m, items.len() as u64);
        push_str(&mut m, ", expected cols*rows=");
        push_digits(&mut m, expected as u64);
        return Err(RendererError::InvalidArg(m));
    }
    let cells = match parse_cells(items) {
        Ok(c) => c,
        Err(e) => return Err(e),
    };
    proof {
        lemma_cells_len(items@);
        assert(count as int == cell_count(cols, rows)) by (nonlinear_arith)
            requires
                count as int == (if cols <= 0 || rows <= 0 { 0 } else { cols * rows }),
        ;
        assert(cells@.len() == cells_view(cells@).len());
    }
    let mut state = BufferState {
        cols,
        rows,
        cells,
        cursor_col,
        cursor_row,
        cursor_visible,
        row_hashes: None,
    };
    state.compute_row_hashes();
    Ok(state)
}

// ── Diff operations ──────────────────────────────────────────────

/// The operation read from a pack's fields: `kind` (default a write),
/// `col`, `row` (default 1), `text` (default empty), and an optional
/// `style` pack (default the empty style).
pub open spec fn op_fields(fs: Seq<HostField>) -> Result<OpView, Seq<char>> {
    match int_field(fs, "kind"@, diff_kind::WRITE) {
        Err(e) => Err(e),
        Ok(kind) => match int_field(fs, "col"@, 1) {
            Err(e) => Err(e),
            Ok(col) => match int_field(fs, "row"@, 1) {
                Err(e) => Err(e),
                Ok(row) => match str_field(fs, "text"@, ""@) {
                    Err(e) => Err(e),
                    Ok(text) => match lookup(fs, "style"@) {
                        None => Ok(OpView { kind, col, row, text, style: empty_style() }),
                        Some(sv) => match style_spec(sv) {
                            Err(e) => Err(e),
                            Ok(style) => Ok(OpView { kind, col, row, text, style }),
                        },
                    },
                },
            },
        },
    }
}

/// The operation a value stands for.
pub open spec fn op_spec(v: HostValue) -> Result<OpView, Seq<char>> {
    match v {
        HostValue::Pack(fs) => op_fields(fs@),
        _ => Err("diff_op must be a pack"@),
    }
}

/// The operations read from a list, in order.
pub open spec fn ops_of(items: Seq<HostValue>) -> Result<Seq<OpView>, Seq<char>>
    decreases items.len(),
{
    if items.len() == 0 {
        Ok(Seq::empty())
    } else {
        match ops_of(items.drop_last()) {
            Err(e) => Err(e),
            Ok(os) => match op_spec(items.last()) {
                Err(e) => Err(e),
                Ok(o) => Ok(os.push(o)),
            },
        }
    }
}

/// The operations a value stands for.
pub open spec fn ops_spec(v: HostValue) -> Result<Seq<OpView>, Seq<char>> {
    match v {
        HostValue::List(items) => ops_of(items@),
        _ => Err("ops must be a list"@),
    }
}

/// Reads a diff-operation pack.
pub fn parse_diff_op(value: &HostValue) -> (r: Result<DiffOp, RendererError>)
    ensures
        match op_spec(*value) {
            Ok(o) => r matches Ok(x) && x@ == o,
            Err(d) => is_invalid_arg(r, d),
        },
{
    let fields = match value {
        HostValue::Pack(fields) => fields,
        _ => return Err(RendererError::InvalidArg(String::from_str("diff_op must be a pack"))),
    };
    let kind = match field_int(fields, "kind", diff_kind::WRITE) {
        Ok(x) => x,
        Err(e) => return Err(e),
    };
    let col = match field_int(fields, "col", 1) {
        Ok(x) => x,
        Err(e) => return Err(e),
    };
    let row = match field_int(fields, "row", 1) {
        Ok(x) => x,
        Err(e) => return Err(e),
    };
    let text = match field_str(fields, "text", "") {
        Ok(x) => x,
        Err(e) => return Err(e),
    };
    let style = match find_field(fields, "style") {
        None => CellStyle::empty(),
        Some(i) => match parse_style(&fields[i].value) {
            Ok(s) => s,
            Err(e) => return Err(e),
        },
    };
    Ok(DiffOp { kind, col, row, text, style })
}

proof fn lemma_ops_err_persists(items: Seq<HostValue>, k: int, m: int)
    requires
        0 <= k <= m <= items.len(),
        ops_of(items.take(k)) is Err,
    ensures
        ops_of(items.take(m)) == ops_of(items.take(k)),
    decreases m - k,
{
    if m > k {
        lemma_ops_err_persists(items, k, m - 1);
        assert(items.take(m).drop_last() =~= items.take(m - 1));
    }
}

/// Reads a list of diff operations.
pub fn parse_diff_ops(value: &HostValue) -> (r: Result<Vec<DiffOp>, RendererError>)
    ensures
        match ops_spec(*value) {
            Ok(os) => r matches Ok(v) && ops_view(v@) == os,
            Err(d) => is_invalid_arg(r, d),
        },
{
    let items = match value {
        HostValue::List(items) => items,
        _ => return Err(RendererError::InvalidArg(String::from_str("ops must be a list"))),
    };
    let mut out: Vec<DiffOp> = Vec::new();
    let mut i: usize = 0;
    proof {
        assert(items@.take(0) =~= Seq::<HostValue>::empty());
        assert(ops_view(out@) =~= Seq::<OpView>::empty());
    }
    while i < items.len()
        invariant
            0 <= i <= items@.len(),
            ops_of(items@.take(i as int)) == Ok::<Seq<OpView>, Seq<char>>(ops_view(out@)),
            ops_spec(*value) == ops_of(items@),
        decreases items@.len() - i,
    {
        proof {
            assert(items@.take(i + 1).drop_last() =~= items@.take(i as int));
            assert(items@.take(i + 1).last() == items@[i as int]);
        }
        match parse_diff_op(&items[i]) {
            Ok(o) => {
                let ghost before = out@;
                out.push(o);
                proof {
                    assert(ops_view(out@) =~= ops_view(before).push(o@));
                }
            },
            Err(e) => {
                proof {
                    assert(op_spec(items@[i as int]) is Err);
                    assert(ops_of(items@.take(i + 1)) == Err::<Seq<OpView>, Seq<char>>(op_spec(items@[i as int])->Err_0));
                    lemma_ops_err_persists(items@, i + 1, items@.len() as int);
                    assert(items@.take(items@.len() as int) =~= items@);
                }
                return Err(e);
            },
        }
        i = i + 1;
    }
    proof {
        assert(items@.take(items@.len() as int) =~= items@);
    }
    Ok(out)
}

// ── Building packs ───────────────────────────────────────────────

/// Field names of a style pack, in order.
pub open spec fn style_names() -> Seq<Seq<char>> {
    seq!["fg"@, "bg"@, "bold"@, "dim"@, "underline"@, "italic"@]
}

/// Field names of a cell pack, in order.
pub open spec fn cell_names() -> Seq<Seq<char>> {
    seq!["text"@, "fg"@, "bg"@, "bold"@, "dim"@, "underline"@, "italic"@]
}

/// Field names of a screen-buffer pack, in order.
pub open spec fn buffer_names() -> Seq<Seq<char>> {
    seq!["cols"@, "rows"@, "cells"@, "cursor_col"@, "cursor_row"@, "cursor_visible"@]
}

/// Field names of a diff-operation pack, in order.
pub open spec fn op_names() -> Seq<Seq<char>> {
    seq!["kind"@, "col"@, "row"@, "text"@, "style"@]
}

/// `v` is a style pack holding `s`.
pub open spec fn is_style_value(v: HostValue, s: StyleView) -> bool {
    match v {
        HostValue::Pack(fs) => {
            &&& names_are(fs@, style_names())
            &&& str_of(fs@[0].value) == Some(s.fg)
            &&& str_of(fs@[1].value) == Some(s.bg)
            &&& bool_of(fs@[2].value) == Some(s.bold)
            &&& bool_of(fs@[3].value) == Some(s.dim)
            &&& bool_of(fs@[4].value) == Some(s.underline)
            &&& bool_of(fs@[5].value) == Some(s.italic)
        },
        _ => false,
    }
}

/// `v` is a cell pack holding `c`: its text, then its style's fields.
pub open spec fn is_cell_value(v: HostValue, c: CellView) -> bool {
    match v {
        HostValue::Pack(fs) => {
            &&& names_are(fs@, cell_names())
            &&& str_of(fs@[0].value) == Some(c.text)
            &&& str_of(fs@[1].value) == Some(c.style.fg)
            &&& str_of(fs@[2].value) == Some(c.style.bg)
            &&& bool_of(fs@[3].value) == Some(c.style.bold)
            &&& bool_of(fs@[4].value) == Some(c.style.dim)
            &&& bool_of(fs@[5].value) == Some(c.style.underline)
            &&& bool_of(fs@[6].value) == Some(c.style.italic)
        },
        _ => false,
    }
}

/// `v` is a list holding one cell pack per cell, in order.
pub open spec fn is_cell_list(v: HostValue, cells: Seq<CellView>) -> bool {
    match v {
        HostValue::List(items) => {
            &&& items@.len() == cells.len()
            &&& forall|i: int| 0 <= i < cells.len() ==> is_cell_value(#[trigger] items@[i], cells[i])
        },
        _ => false,
    }
}

/// `v` is a screen-buffer pack holding `b` (its row hashes are not part
/// of the pack).
pub open spec fn is_buffer_value(v: HostValue, b: BufferView) -> bool {
    match v {
        HostValue::Pack(fs) => {
            &&& names_are(fs@, buffer_names())
            &&& int_of(fs@[0].value) == Some(b.cols)
            &&& int_of(fs@[1].value) == Some(b.rows)
            &&& is_cell_list(fs@[2].value, b.cells)
            &&& int_of(fs@[3].value) == Some(b.cursor_col)
            &&& int_of(fs@[4].value) == Some(b.cursor_row)
            &&& bool_of(fs@[5].value) == Some(b.cursor_visible)
        },
        _ => false,
    }
}

/// `v` is a diff-operation pack holding `o`.
pub open spec fn is_op_value(v: HostValue, o: OpView) -> bool {
    match v {
        HostValue::Pack(fs) => {
            &&& names_are(fs@, op_names())
            &&& int_of(fs@[0].value) == Some(o.kind)
            &&& int_of(fs@[1].value) == Some(o.col)
            &&& int_of(fs@[2].value) == Some(o.row)
            &&& str_of(fs@[3].value) == Some(o.text)
            &&& is_style_value(fs@[4].value, o.style)
        },
        _ => false,
    }
}

/// `v` is the result of a diff: `ops`, a list of operation packs, and
/// `requires_full`.
pub open spec fn is_diff_result(v: HostValue, ops: Seq<OpView>, full: bool) -> bool {
    match v {
        HostValue::Pack(fs) => {
            &&& names_are(fs@, seq!["ops"@, "requires_full"@])
            &&& (match fs@[0].value {
                HostValue::List(items) => {
                    &&& items@.len() == ops.len()
                    &&& forall|i: int| 0 <= i < ops.len() ==> is_op_value(#[trigger] items@[i], ops[i])
                },
                _ => false,
            })
            &&& bool_of(fs@[1].value) == Some(full)
        },
        _ => false,
    }
}

/// `v` is the result of a frame: its `text` and the `next` buffer.
pub open spec fn is_frame_result(v: HostValue, text: Seq<char>, next: BufferView) -> bool {
    match v {
        HostValue::Pack(fs) => {
            &&& names_are(fs@, seq!["text"@, "next"@])
            &&& str_of(fs@[0].value) == Some(text)
            &&& is_buffer_value(fs@[1].value, next)
        },
        _ => false,
    }
}

fn field(name: &str, value: HostValue) -> (f: HostField)
    ensures
        f.name@ == name@,
        f.value == value,
{
    HostField { name: String::from_str(name), value }
}

fn str_value(s: &String) -> (v: HostValue)
    ensures
        str_of(v) == Some(s@),
{
    HostValue::Str(s.clone())
}

/// The style pack of `style`.
pub fn build_style(style: &CellStyle) -> (v: HostValue)
    ensures
        is_style_value(v, style@),
{
    let mut fs: Vec<HostField> = Vec::new();
    fs.push(field("fg", str_value(&style.fg)));
    fs.push(field("bg", str_value(&style.bg)));
    fs.push(field("bold", HostValue::Bool(style.bold)));
    fs.push(field("dim", HostValue::Bool(style.dim)));
    fs.push(field("underline", HostValue::Bool(style.underline)));
    fs.push(field("italic", HostValue::Bool(style.italic)));
    proof {
        assert(names_are(fs@, style_names())) by {
            assert forall|i: int| 0 <= i < fs@.len() implies #[trigger] fs@[i].name@ == style_names()[i] by {
                if i == 0 {} else if i == 1 {} else if i == 2 {} else if i == 3 {} else if i == 4 {} else {}
            }
        }
    }
    HostValue::Pack(fs)
}

/// The cell pack of `cell`.
pub fn build_cell(cell: &Cell) -> (v: HostValue)
    ensures
        is_cell_value(v, cell@),
{
    let mut fs: Vec<HostField> = Vec::new();
    fs.push(field("text", str_value(&cell.text)));
    fs.push(field("fg", str_value(&cell.style.fg)));
    fs.push(field("bg", str_value(&cell.style.bg)));
    fs.push(field("bold", HostValue::Bool(cell.style.bold)));
    fs.push(field("dim", HostValue::Bool(cell.style.dim)));
    fs.push(field("underline", HostValue::Bool(cell.style.underline)));
    fs.push(field("italic", HostValue::Bool(cell.style.italic)));
    proof {
        assert(names_are(fs@, cell_names())) by {
            assert forall|i: int| 0 <= i < fs@.len() implies #[trigger] fs@[i].name@ == cell_names()[i] by {
                if i == 0 {} else if i == 1 {} else if i == 2 {} else if i == 3 {} else if i == 4 {} else if i == 5 {} else {}
            }
        }
    }
    HostValue::Pack(fs)
}

/// The list of cell packs of `cells`.
fn build_cell_list(cells: &Vec<Cell>) -> (v: HostValue)
    ensures
        is_cell_list(v, cells_view(cells@)),
{
    let mut items: Vec<HostValue> = Vec::new();
    let mut i: usize = 0;
    while i < cells.len()
        invariant
            0 <= i <= cells@.len(),
            items@.len() == i,
            forall|j: int| 0 <= j < i ==> is_cell_value(#[trigger] items@[j], cells@[j]@),
        decreases cells@.len() - i,
    {
        items.push(build_cell(&cells[i]));
        i = i + 1;
    }
    HostValue::List(items)
}

/// The screen-buffer pack of `buf` (the row hashes are not part of it).
pub fn build_buffer(buf: &BufferState) -> (v: HostValue)
    ensures
        is_buffer_value(v, buf@),
{
    let mut fs: Vec<HostField> = Vec::new();
    fs.push(field("cols", HostValue::Int(buf.cols)));
    fs.push(field("rows", HostValue::Int(buf.rows)));
    fs.push(field("cells", build_cell_list(&buf.cells)));
    fs.push(field("cursor_col", HostValue::Int(buf.cursor_col)));
    fs.push(field("cursor_row", HostValue::Int(buf.cursor_row)));
    fs.push(field("cursor_visible", HostValue::Bool(buf.cursor_visible)));
    proof {
        assert(names_are(fs@, buffer_names())) by {
            assert forall|i: int| 0 <= i < fs@.len() implies #[trigger] fs@[i].name@ == buffer_names()[i] by {
                if i == 0 {} else if i == 1 {} else if i == 2 {} else if i == 3 {} else if i == 4 {} else {}
            }
        }
    }
    HostValue::Pack(fs)
}

/// The diff-operation pack of `op`.
pub fn build_diff_op(op: &DiffOp) -> (v: HostValue)
    ensures
        is_op_value(v, op@),
{
    let mut fs: Vec<HostField> = Vec::new();
    fs.push(field("kind", HostValue::Int(op.kind)));
    fs.push(field("col", HostValue::Int(op.col)));
    fs.push(field("row", HostValue::Int(op.row)));
    fs.push(field("text", str_value(&op.text)));
    fs.push(field("style", build_style(&op.style)));
    proof {
        assert(names_are(fs@, op_names())) by {
            assert forall|i: int| 0 <= i < fs@.len() implies #[trigger] fs@[i].name@ == op_names()[i] by {
                if i == 0 {} else if i == 1 {} else if i == 2 {} else if i == 3 {} else {}
            }
        }
    }
    HostValue::Pack(fs)
}

/// The result pack of a diff: the operation packs and `requires_full`.
pub fn build_diff_result(ops: &[DiffOp], requires_full: bool) -> (v: HostValue)
    ensures
        is_diff_result(v, ops_view(ops@), requires_full),
{
    let mut items: Vec<HostValue> = Vec::new();
    let mut i: usize = 0;
    while i < ops.len()
        invariant
            0 <= i <= ops@.len(),
            items@.len() == i,
            forall|j: int| 0 <= j < i ==> is_op_value(#[trigger] items@[j], ops@[j]@),
        decreases ops@.len() - i,
    {
        items.push(build_diff_op(&ops[i]));
        i = i + 1;
    }
    let mut fs: Vec<HostField> = Vec::new();
    fs.push(field("ops", HostValue::List(items)));
    fs.push(field("requires_full", HostValue::Bool(requires_full)));
    proof {
        assert(names_are(fs@, seq!["ops"@, "requires_full"@])) by {
            assert forall|i: int| 0 <= i < fs@.len() implies #[trigger] fs@[i].name@ == seq![
                "ops"@,
                "requires_full"@,
            ][i] by {
                if i == 0 {} else {}
            }
        }
    }
    HostValue::Pack(fs)
}

/// The result pack of a frame: its text and the next buffer.
pub fn build_frame_result(text: &str, next: &BufferState) -> (v: HostValue)
    ensures
        is_frame_result(v, text@, next@),
{
    let mut fs: Vec<HostField> = Vec::new();
    fs.push(field("text", HostValue::Str(String::from_str(text))));
    fs.push(field("next", build_buffer(next)));
    proof {
        assert(names_are(fs@, seq!["text"@, "next"@])) by {
            assert forall|i: int| 0 <= i < fs@.len() implies #[trigger] fs@[i].name@ == seq![
                "text"@,
                "next"@,
            ][i] by {
                if i == 0 {} else {}
            }
        }
    }
    HostValue::Pack(fs)
}

// ── Reading back what was built ──────────────────────────────────

/// In a pack whose fields carry `names`, a name that no earlier field
/// carries is found at its own position.
proof fn lemma_lookup_named(fs: Seq<HostField>, names: Seq<Seq<char>>, k: int)
    requires
        names_are(fs, names),
        0 <= k < names.len(),
        forall|j: int| 0 <= j < k ==> names[j] != names[k],
    ensures
        lookup(fs, names[k]) == Some(fs[k].value),
{
    assert forall|j: int| 0 <= j < k implies #[trigger] fs[j].name@ != names[k] by {
        assert(fs[j].name@ == names[j]);
    }
    lemma_lookup_at(fs, names[k], k);
}

/// The field names of each pack differ from one another.
proof fn lemma_names_distinct()
    ensures
        forall|i: int, j: int| 0 <= i < j < 7 ==> cell_names()[i] != cell_names()[j],
        forall|i: int, j: int| 0 <= i < j < 6 ==> style_names()[i] != style_names()[j],
        forall|i: int, j: int| 0 <= i < j < 6 ==> buffer_names()[i] != buffer_names()[j],
        forall|i: int, j: int| 0 <= i < j < 5 ==> op_names()[i] != op_names()[j],
{
    reveal_strlit("text");
    reveal_strlit("fg");
    reveal_strlit("bg");
    reveal_strlit("bold");
    reveal_strlit("dim");
    reveal_strlit("underline");
    reveal_strlit("italic");
    reveal_strlit("cols");
    reveal_strlit("rows");
    reveal_strlit("cells");
    reveal_strlit("cursor_col");
    reveal_strlit("cursor_row");
    reveal_strlit("cursor_visible");
    reveal_strlit("kind");
    reveal_strlit("col");
    reveal_strlit("row");
    reveal_strlit("style");
    assert("text"@.len() == 4 && "text"@[0] == 't' && "text"@[3] == 't');
    assert("fg"@.len() == 2 && "fg"@[0] == 'f' && "fg"@[1] == 'g');
    assert("bg"@.len() == 2 && "bg"@[0] == 'b' && "bg"@[1] == 'g');
    assert("bold"@.len() == 4 && "bold"@[0] == 'b' && "bold"@[3] == 'd');
    assert("dim"@.len() == 3 && "dim"@[0] == 'd' && "dim"@[2] == 'm');
    assert("underline"@.len() == 9 && "underline"@[0] == 'u' && "underline"@[8] == 'e');
    assert("italic"@.len() == 6 && "italic"@[0] == 'i' && "italic"@[5] == 'c');
    assert("cols"@.len() == 4 && "cols"@[0] == 'c' && "cols"@[3] == 's');
    assert("rows"@.len() == 4 && "rows"@[0] == 'r' && "rows"@[3] == 's');
    assert("cells"@.len() == 5 && "cells"@[0] == 'c' && "cells"@[4] == 's');
    assert("cursor_col"@.len() == 10 && "cursor_col"@[0] == 'c' && "cursor_col"@[9] == 'l');
    assert("cursor_row"@.len() == 10 && "cursor_row"@[0] == 'c' && "cursor_row"@[9] == 'w');
    assert("cursor_visible"@.len() == 14 && "cursor_visible"@[0] == 'c' && "cursor_visible"@[13] == 'e');
    assert("kind"@.len() == 4 && "kind"@[0] == 'k' && "kind"@[3] == 'd');
    assert("col"@.len() == 3 && "col"@[0] == 'c' && "col"@[2] == 'l');
    assert("row"@.len() == 3 && "row"@[0] == 'r' && "row"@[2] == 'w');
    assert("style"@.len() == 5 && "style"@[0] == 's' && "style"@[4] == 'e');
}

/// Reading a style pack built from `s` gives back `s`.
pub proof fn law_style_round_trip(v: HostValue, s: StyleView)
    requires
        is_style_value(v, s),
    ensures
        style_spec(v) == Ok::<StyleView, Seq<char>>(s),
{
    lemma_names_distinct();
    let fs = v->Pack_0@;
    let names = style_names();
    lemma_lookup_named(fs, names, 0);
    lemma_lookup_named(fs, names, 1);
    lemma_lookup_named(fs, names, 2);
    lemma_lookup_named(fs, names, 3);
    lemma_lookup_named(fs, names, 4);
    lemma_lookup_named(fs, names, 5);
}

/// Reading a cell pack built from `c` gives back `c`, when its text is
/// not empty (an empty text reads back as one space).
pub proof fn law_cell_round_trip(v: HostValue, c: CellView)
    requires
        is_cell_value(v, c),
        c.text.len() > 0,
    ensures
        cell_spec(v) == Ok::<CellView, Seq<char>>(c),
{
    lemma_names_distinct();
    let fs = v->Pack_0@;
    let names = cell_names();
    lemma_lookup_named(fs, names, 0);
    lemma_lookup_named(fs, names, 1);
    lemma_lookup_named(fs, names, 2);
    lemma_lookup_named(fs, names, 3);
    lemma_lookup_named(fs, names, 4);
    lemma_lookup_named(fs, names, 5);
    lemma_lookup_named(fs, names, 6);
}

/// Reading a list of cell packs gives back the cells.
proof fn lemma_cells_round_trip(items: Seq<HostValue>, cells: Seq<CellView>)
    requires
        items.len() == cells.len(),
        forall|i: int| 0 <= i < cells.len() ==> is_cell_value(#[trigger] items[i], cells[i]),
        forall|i: int| 0 <= i < cells.len() ==> (#[trigger] cells[i]).text.len() > 0,
    ensures
        cells_of(items) == Ok::<Seq<CellView>, Seq<char>>(cells),
    decreases items.len(),
{
    if items.len() > 0 {
        let n = items.len() - 1;
        assert forall|i: int| 0 <= i < n implies is_cell_value(#[trigger] items.drop_last()[i], cells.drop_last()[i]) by {
            assert(is_cell_value(items[i], cells[i]));
        }
        assert forall|i: int| 0 <= i < n implies (#[trigger] cells.drop_last()[i]).text.len() > 0 by {
            assert(cells[i].text.len() > 0);
        }
        lemma_cells_round_trip(items.drop_last(), cells.drop_last());
        assert(is_cell_value(items[n], cells[n]));
        assert(cells[n].text.len() > 0);
        law_cell_round_trip(items.last(), cells.last());
        assert(cells.drop_last().push(cells.last()) =~= cells);
    } else {
        assert(cells =~= Seq::<CellView>::empty());
    }
}

/// Reading a screen-buffer pack built from `b` gives back `b`, with its
/// row hashes computed, when every cell has text (an empty text reads
/// back as one space), no dimension is negative and the cells are as
/// many as its dimensions say.
pub proof fn law_buffer_round_trip(v: HostValue, b: BufferView)
    requires
        is_buffer_value(v, b),
        b.wf(),
        b.cols >= 0,
        b.rows >= 0,
        forall|i: int| 0 <= i < b.cells.len() ==> (#[trigger] b.cells[i]).text.len() > 0,
        b.cells.len() <= usize::MAX,
    ensures
        buffer_spec(v) == Ok::<BufferView, Seq<char>>(with_hashes(BufferView { row_hashes: None, ..b })),
{
    lemma_names_distinct();
    let fs = v->Pack_0@;
    let names = buffer_names();
    lemma_lookup_named(fs, names, 0);
    lemma_lookup_named(fs, names, 1);
    lemma_lookup_named(fs, names, 2);
    lemma_lookup_named(fs, names, 3);
    lemma_lookup_named(fs, names, 4);
    lemma_lookup_named(fs, names, 5);
    let items = fs[2].value->List_0@;
    lemma_cells_round_trip(items, b.cells);
}

/// Reading a diff-operation pack built from `o` gives back `o`.
pub proof fn law_op_round_trip(v: HostValue, o: OpView)
    requires
        is_op_value(v, o),
    ensures
        op_spec(v) == Ok::<OpView, Seq<char>>(o),
{
    lemma_names_distinct();
    let fs = v->Pack_0@;
    let names = op_names();
    lemma_lookup_named(fs, names, 0);
    lemma_lookup_named(fs, names, 1);
    lemma_lookup_named(fs, names, 2);
    lemma_lookup_named(fs, names, 3);
    lemma_lookup_named(fs, names, 4);
    law_style_round_trip(fs[4].value, o.style);
}

} // verus!
