//! Buffer state: cells and their styles, row fingerprints, renderer
//! errors and diff operations.

use vstd::prelude::*;
use vstd::string::*;
use vstd::utf8::*;

use crate::text::push_str;

pub mod diff_kind;
pub mod err;

verus! {

/// Largest number of cells a buffer may hold (`cols * rows`).
pub const MAX_BUFFER_CELLS: u64 = 4000000;

/// FNV-1a 64-bit offset basis.
pub const FNV1A_OFFSET_64: u64 = 0xcbf2_9ce4_8422_2325;

/// FNV-1a 64-bit prime.
pub const FNV1A_PRIME_64: u64 = 0x0000_0100_0000_01b3;

// ── Styles and cells ─────────────────────────────────────────────

/// Mathematical view of a [`CellStyle`].
pub struct StyleView {
    pub fg: Seq<char>,
    pub bg: Seq<char>,
    pub bold: bool,
    pub dim: bool,
    pub underline: bool,
    pub italic: bool,
}

/// The style with no colour and no attribute.
pub open spec fn empty_style() -> StyleView {
    StyleView {
        fg: Seq::empty(),
        bg: Seq::empty(),
        bold: false,
        dim: false,
        underline: false,
        italic: false,
    }
}

/// No colour name and no attribute set.
pub open spec fn style_is_empty(s: StyleView) -> bool {
    s.fg.len() == 0 && s.bg.len() == 0 && !s.bold && !s.dim && !s.underline && !s.italic
}

/// Visual attributes of one cell. Colours are names (`"red"`,
/// `"bright_blue"`, …); an empty name means the terminal default.
#[derive(Clone, Debug, PartialEq, Eq)]
pub struct CellStyle {
    pub fg: String,
    pub bg: String,
    pub bold: bool,
    pub dim: bool,
    pub underline: bool,
    pub italic: bool,
}

impl View for CellStyle {
    type V = StyleView;

    open spec fn view(&self) -> StyleView {
        StyleView {
            fg: self.fg@,
            bg: self.bg@,
            bold: self.bold,
            dim: self.dim,
            underline: self.underline,
            italic: self.italic,
        }
    }
}

impl CellStyle {
    /// The default style: no colours, no attributes.
    pub fn empty() -> (s: Self)
        ensures
            s@ == empty_style(),
    {
        CellStyle {
            fg: String::new(),
            bg: String::new(),
            bold: false,
            dim: false,
            underline: false,
            italic: false,
        }
    }

    /// Whether no colour and no attribute is set.
    pub fn is_empty(&self) -> (b: bool)
        ensures
            b == style_is_empty(self@),
    {
        self.fg.as_str().is_empty() && self.bg.as_str().is_empty() && !self.bold && !self.dim
            && !self.underline && !self.italic
    }

    /// A copy of this style.
    pub fn duplicate(&self) -> (s: Self)
        ensures
            s@ == self@,
    {
        CellStyle {
            fg: self.fg.clone(),
            bg: self.bg.clone(),
            bold: self.bold,
            dim: self.dim,
            underline: self.underline,
            italic: self.italic,
        }
    }
}

/// Mathematical view of a [`Cell`].
pub struct CellView {
    pub text: Seq<char>,
    pub style: StyleView,
}

/// A blank cell: one space, default style.
pub open spec fn space_cell() -> CellView {
    CellView { text: seq![' '], style: empty_style() }
}

/// One screen cell: the text drawn there and its style. The cell right of
/// a wide character holds a single-space placeholder.
#[derive(Clone, Debug, PartialEq, Eq)]
pub struct Cell {
    pub text: String,
    pub style: CellStyle,
}

impl View for Cell {
    type V = CellView;

    open spec fn view(&self) -> CellView {
        CellView { text: self.text@, style: self.style@ }
    }
}

impl Cell {
    /// A blank cell: one space, default style.
    pub fn default_space() -> (c: Self)
        ensures
            c@ == space_cell(),
    {
        Cell { text: crate::text::one_char(' '), style: CellStyle::empty() }
    }

    /// A copy of this cell.
    pub fn duplicate(&self) -> (c: Self)
        ensures
            c@ == self@,
    {
        Cell { text: self.text.clone(), style: self.style.duplicate() }
    }
}

/// Views of a sequence of cells.
pub open spec fn cells_view(cells: Seq<Cell>) -> Seq<CellView> {
    cells.map_values(|c: Cell| c@)
}

// ── Row fingerprints (FNV-1a over a length-prefixed encoding) ────

/// One FNV-1a step.
pub open spec fn fnv_step(h: u64, b: u8) -> u64 {
    (h ^ (b as u64)).wrapping_mul(FNV1A_PRIME_64)
}

/// FNV-1a of `bytes`, starting from `h`.
pub open spec fn fnv_bytes(h: u64, bytes: Seq<u8>) -> u64
    decreases bytes.len(),
{
    if bytes.len() == 0 {
        h
    } else {
        fnv_step(fnv_bytes(h, bytes.drop_last()), bytes.last())
    }
}

/// Low byte of the UTF-8 length of `s`.
pub open spec fn len_byte(s: Seq<char>) -> u8 {
    encode_utf8(s).len() as u8
}

/// Attribute bits: bold 1, dim 2, underline 4, italic 8.
pub open spec fn attr_byte(s: StyleView) -> u8 {
    ((if s.bold { 1int } else { 0int }) + (if s.dim { 2int } else { 0int }) + (if s.underline {
        4int
    } else {
        0int
    }) + (if s.italic { 8int } else { 0int })) as u8
}

/// The bytes hashed for one cell: each string prefixed by its length,
/// then the attribute byte and a `0xff` separator, so that neither bytes
/// of neighbouring cells nor neighbouring fields can run together.
pub open spec fn cell_record(c: CellView) -> Seq<u8> {
    seq![len_byte(c.text)] + encode_utf8(c.text) + seq![len_byte(c.style.fg)] + encode_utf8(
        c.style.fg,
    ) + seq![len_byte(c.style.bg)] + encode_utf8(c.style.bg) + seq![attr_byte(c.style), 0xffu8]
}

/// The bytes hashed for a row: its cells' records in order.
pub open spec fn row_record(cells: Seq<CellView>) -> Seq<u8>
    decreases cells.len(),
{
    if cells.len() == 0 {
        Seq::empty()
    } else {
        row_record(cells.drop_last()) + cell_record(cells.last())
    }
}

/// The fingerprint of a row of cells.
pub open spec fn fingerprint(cells: Seq<CellView>) -> u64 {
    fnv_bytes(FNV1A_OFFSET_64, row_record(cells))
}

/// Hashing a concatenation continues from the hash of the first part.
pub proof fn lemma_fnv_concat(h: u64, a: Seq<u8>, b: Seq<u8>)
    ensures
        fnv_bytes(h, a + b) == fnv_bytes(fnv_bytes(h, a), b),
    decreases b.len(),
{
    if b.len() == 0 {
        assert(a + b =~= a);
    } else {
        lemma_fnv_concat(h, a, b.drop_last());
        assert((a + b).drop_last() =~= a + b.drop_last());
    }
}

/// One FNV-1a step over a single byte.
fn fnv1a_update_u8(h: u64, b: u8) -> (r: u64)
    ensures
        r == fnv_step(h, b),
{
    let x = h ^ (b as u64);
    x.wrapping_mul(FNV1A_PRIME_64)
}

/// FNV-1a over `bytes`, continuing from `h`.
fn fnv1a_update(h: u64, bytes: &[u8]) -> (r: u64)
    ensures
        r == fnv_bytes(h, bytes@),
{
    let mut acc = h;
    let mut i: usize = 0;
    while i < bytes.len()
        invariant
            i <= bytes@.len(),
            acc == fnv_bytes(h, bytes@.take(i as int)),
        decreases bytes@.len() - i,
    {
        proof {
            assert(bytes@.take(i + 1).drop_last() =~= bytes@.take(i as int));
        }
        acc = fnv1a_update_u8(acc, bytes[i]);
        i = i + 1;
    }
    proof {
        assert(bytes@.take(bytes@.len() as int) =~= bytes@);
    }
    acc
}

/// Hashing one byte is one step.
proof fn lemma_fnv_one(h: u64, b: u8)
    ensures
        fnv_bytes(h, seq![b]) == fnv_step(h, b),
{
    assert(seq![b].drop_last() =~= Seq::<u8>::empty());
    assert(fnv_bytes(h, Seq::<u8>::empty()) == h);
}

/// Hashes the length byte and the bytes of `s`, continuing from `h`.
fn fnv_string(h: u64, s: &String) -> (r: u64)
    ensures
        r == fnv_bytes(h, seq![len_byte(s@)] + encode_utf8(s@)),
{
    let t = s.as_str();
    let tb = t.as_bytes();
    let h1 = fnv1a_update_u8(h, tb.len() as u8);
    let h2 = fnv1a_update(h1, tb);
    proof {
        lemma_fnv_one(h, tb.len() as u8);
        lemma_fnv_concat(h, seq![len_byte(s@)], encode_utf8(s@));
    }
    h2
}

/// Hashes one cell's record, continuing from `h`.
fn fingerprint_cell(h: u64, cell: &Cell) -> (r: u64)
    ensures
        r == fnv_bytes(h, cell_record(cell@)),
{
    let ghost c = cell@;
    let ghost p1 = seq![len_byte(c.text)] + encode_utf8(c.text);
    let ghost p2 = seq![len_byte(c.style.fg)] + encode_utf8(c.style.fg);
    let ghost p3 = seq![len_byte(c.style.bg)] + encode_utf8(c.style.bg);
    let h1 = fnv_string(h, &cell.text);
    let h2 = fnv_string(h1, &cell.style.fg);
    let h3 = fnv_string(h2, &cell.style.bg);
    let attrs: u8 = (if cell.style.bold { 1u8 } else { 0u8 }) + (if cell.style.dim {
        2u8
    } else {
        0u8
    }) + (if cell.style.underline { 4u8 } else { 0u8 }) + (if cell.style.italic {
        8u8
    } else {
        0u8
    });
    let h4 = fnv1a_update_u8(h3, attrs);
    let h5 = fnv1a_update_u8(h4, 0xff);
    proof {
        lemma_fnv_concat(h, p1, p2);
        lemma_fnv_concat(h, p1 + p2, p3);
        lemma_fnv_one(h3, attrs);
        lemma_fnv_concat(h, p1 + p2 + p3, seq![attrs]);
        lemma_fnv_one(h4, 0xffu8);
        lemma_fnv_concat(h, p1 + p2 + p3 + seq![attrs], seq![0xffu8]);
        assert(p1 + p2 + p3 + seq![attrs] + seq![0xffu8] =~= cell_record(c));
    }
    h5
}

/// Fingerprint of `cells[start..end]`.
fn fingerprint_range(cells: &[Cell], start: usize, end: usize) -> (r: u64)
    requires
        start <= end <= cells@.len(),
    ensures
        r == fingerprint(cells_view(cells@).subrange(start as int, end as int)),
{
    let ghost v = cells_view(cells@);
    let mut h = FNV1A_OFFSET_64;
    let mut i = start;
    proof {
        assert(v.subrange(start as int, start as int) =~= Seq::<CellView>::empty());
    }
    while i < end
        invariant
            start <= i <= end,
            end <= cells@.len(),
            v == cells_view(cells@),
            h == fnv_bytes(FNV1A_OFFSET_64, row_record(v.subrange(start as int, i as int))),
        decreases end - i,
    {
        let ghost pre = v.subrange(start as int, i as int);
        let h2 = fingerprint_cell(h, &cells[i]);
        proof {
            let s = v.subrange(start as int, i + 1);
            assert(s.drop_last() =~= pre);
            assert(s.last() == cells@[i as int]@);
            lemma_fnv_concat(FNV1A_OFFSET_64, row_record(pre), cell_record(cells@[i as int]@));
        }
        h = h2;
        i = i + 1;
    }
    h
}

/// FNV-1a fingerprint of a row of cells. Each string is prefixed by its
/// length, so `["ab", " "]` and `["a", "b"]` hash differently.
pub fn row_fingerprint(cells: &[Cell]) -> (r: u64)
    ensures
        r == fingerprint(cells_view(cells@)),
{
    let r = fingerprint_range(cells, 0, cells.len());
    proof {
        assert(cells_view(cells@).subrange(0, cells@.len() as int) =~= cells_view(cells@));
    }
    r
}

// ── Buffer state ─────────────────────────────────────────────────

/// Mathematical view of a [`BufferState`].
pub struct BufferView {
    pub cols: i64,
    pub rows: i64,
    pub cells: Seq<CellView>,
    pub cursor_col: i64,
    pub cursor_row: i64,
    pub cursor_visible: bool,
    pub row_hashes: Option<Seq<u64>>,
}

/// Number of cells a buffer of the given dimensions holds: `cols * rows`,
/// or none when either is not positive.
pub open spec fn cell_count(cols: i64, rows: i64) -> int {
    if cols > 0 && rows > 0 {
        cols * rows
    } else {
        0
    }
}

impl BufferView {
    /// The cells are laid out row-major, `cols * rows` of them.
    pub open spec fn wf(self) -> bool {
        self.cells.len() == cell_count(self.cols, self.rows)
    }

    /// Index of the 1-based cell (`col`, `row`), when it lies inside.
    pub open spec fn index_of(self, col: i64, row: i64) -> Option<int> {
        if col < 1 || row < 1 || col > self.cols || row > self.rows {
            None
        } else {
            Some((row - 1) * self.cols + (col - 1))
        }
    }

    /// The fingerprint stored for row `r` (0-based) by
    /// [`BufferState::compute_row_hashes`].
    pub open spec fn row_hash_at(self, r: int) -> u64 {
        let start = r * self.cols;
        if start + self.cols > self.cells.len() {
            FNV1A_OFFSET_64
        } else {
            fingerprint(self.cells.subrange(start, start + self.cols))
        }
    }

    /// One fingerprint per row (none for an empty buffer).
    pub open spec fn row_hashes_of(self) -> Seq<u64> {
        if self.cols <= 0 || self.rows <= 0 {
            Seq::empty()
        } else {
            Seq::new(self.rows as nat, |r: int| self.row_hash_at(r))
        }
    }

    /// The stored row hashes are present and match the cells.
    pub open spec fn hashes_valid(self) -> bool {
        self.row_hashes == Some(self.row_hashes_of())
    }
}

/// A virtual screen: `cols * rows` cells in row-major order, the cursor
/// position (1-based) and visibility, and optional per-row fingerprints
/// that let the differ skip unchanged rows.
#[derive(Clone, Debug)]
pub struct BufferState {
    pub cols: i64,
    pub rows: i64,
    pub cells: Vec<Cell>,
    pub cursor_col: i64,
    pub cursor_row: i64,
    pub cursor_visible: bool,
    pub row_hashes: Option<Vec<u64>>,
}

impl View for BufferState {
    type V = BufferView;

    open spec fn view(&self) -> BufferView {
        BufferView {
            cols: self.cols,
            rows: self.rows,
            cells: cells_view(self.cells@),
            cursor_col: self.cursor_col,
            cursor_row: self.cursor_row,
            cursor_visible: self.cursor_visible,
            row_hashes: match self.row_hashes {
                Some(h) => Some(h@),
                None => None,
            },
        }
    }
}

/// A cell inside the buffer has an index inside the cell sequence.
pub proof fn lemma_index_in_range(cols: int, rows: int, col: int, row: int)
    requires
        1 <= col <= cols,
        1 <= row <= rows,
    ensures
        0 <= (row - 1) * cols + (col - 1) < cols * rows,
        0 <= (row - 1) * cols <= cols * rows,
        cols <= cols * rows,
        rows <= cols * rows,
{
    assert(cols <= cols * rows) by (nonlinear_arith)
        requires
            rows >= 1,
            cols >= 1,
    ;
    assert(rows <= cols * rows) by (nonlinear_arith)
        requires
            rows >= 1,
            cols >= 1,
    ;
    assert(0 <= (row - 1) * cols) by (nonlinear_arith)
        requires
            row >= 1,
            cols >= 1,
    ;
    assert((row - 1) * cols + cols <= rows * cols) by (nonlinear_arith)
        requires
            row <= rows,
            cols >= 1,
    ;
    assert(rows * cols == cols * rows) by (nonlinear_arith);
}

impl BufferState {
    /// Row-major index of the 1-based cell (`col`, `row`), or `None` when
    /// it lies outside the buffer.
    pub fn cell_index(&self, col: i64, row: i64) -> (r: Option<usize>)
        requires
            self@.wf(),
        ensures
            match self@.index_of(col, row) {
                Some(i) => r is Some && r->0 == i && 0 <= i < self@.cells.len(),
                None => r is None,
            },
    {
        if col < 1 || row < 1 || col > self.cols || row > self.rows {
            return None;
        }
        let n = self.cells.len();
        proof {
            lemma_index_in_range(self.cols as int, self.rows as int, col as int, row as int);
            assert(n == self@.cells.len());
        }
        let i: usize = ((row - 1) as usize) * (self.cols as usize) + ((col - 1) as usize);
        Some(i)
    }

    /// Recomputes one fingerprint per row from the cells; an empty buffer
    /// gets an empty list. Nothing else changes.
    pub fn compute_row_hashes(&mut self)
        requires
            old(self)@.wf(),
        ensures
            final(self)@ == (BufferView { row_hashes: Some(old(self)@.row_hashes_of()), ..old(self)@ }),
    {
        if self.cols <= 0 || self.rows <= 0 {
            self.row_hashes = Some(Vec::new());
            return;
        }
        let n = self.cells.len();
        proof {
            lemma_index_in_range(self.cols as int, self.rows as int, 1, 1);
            assert(n == self@.cells.len());
        }
        let ghost b = self@;
        let cols = self.cols as usize;
        let rows = self.rows as usize;
        let mut hashes: Vec<u64> = Vec::with_capacity(rows);
        let mut r: usize = 0;
        while r < rows
            invariant
                b == self@,
                b.wf(),
                n == b.cells.len(),
                cols == b.cols,
                rows == b.rows,
                cols > 0,
                rows > 0,
                r <= rows,
                hashes@.len() == r,
                forall|k: int| 0 <= k < r ==> hashes@[k] == b.row_hash_at(k),
            decreases rows - r,
        {
            proof {
                assert((r + 1) * cols <= rows * cols) by (nonlinear_arith)
                    requires
                        r < rows,
                ;
                assert((r + 1) * cols == r * cols + cols) by (nonlinear_arith);
                assert(rows * cols == cols * rows) by (nonlinear_arith);
            }
            let start = r * cols;
            let end = start + cols;
            if end > self.cells.len() {
                hashes.push(FNV1A_OFFSET_64);
            } else {
                let h = fingerprint_range(self.cells.as_slice(), start, end);
                hashes.push(h);
            }
            r = r + 1;
        }
        proof {
            assert(hashes@ =~= b.row_hashes_of());
        }
        self.row_hashes = Some(hashes);
    }
}

// ── Errors ───────────────────────────────────────────────────────

/// Why a renderer operation was refused; each carries a detail message.
#[derive(Debug)]
pub enum RendererError {
    InvalidArg(String),
    OutOfBounds(String),
    InvalidSize(String),
}

impl RendererError {
    /// The error code of this error.
    pub fn code(&self) -> (c: u32)
        ensures
            c == match self {
                RendererError::InvalidArg(_) => err::RENDERER_INVALID_ARG,
                RendererError::OutOfBounds(_) => err::RENDERER_OUT_OF_BOUNDS,
                RendererError::InvalidSize(_) => err::RENDERER_INVALID_SIZE,
            },
    {
        match self {
            RendererError::InvalidArg(_) => err::RENDERER_INVALID_ARG,
            RendererError::OutOfBounds(_) => err::RENDERER_OUT_OF_BOUNDS,
            RendererError::InvalidSize(_) => err::RENDERER_INVALID_SIZE,
        }
    }

    /// The message: the error's name, `": "`, then the detail.
    pub fn message(&self) -> (m: String)
        ensures
            m@ == match self {
                RendererError::InvalidArg(d) => "RendererInvalidArg: "@ + d@,
                RendererError::OutOfBounds(d) => "RendererOutOfBounds: "@ + d@,
                RendererError::InvalidSize(d) => "RendererInvalidSize: "@ + d@,
            },
    {
        let mut out = String::new();
        match self {
            RendererError::InvalidArg(d) => {
                push_str(&mut out, "RendererInvalidArg: ");
                push_str(&mut out, d.as_str());
            },
            RendererError::OutOfBounds(d) => {
                push_str(&mut out, "RendererOutOfBounds: ");
                push_str(&mut out, d.as_str());
            },
            RendererError::InvalidSize(d) => {
                push_str(&mut out, "RendererInvalidSize: ");
                push_str(&mut out, d.as_str());
            },
        }
        out
    }
}

// ── Diff operations ──────────────────────────────────────────────

/// Mathematical view of a [`DiffOp`].
pub struct OpView {
    pub kind: i64,
    pub col: i64,
    pub row: i64,
    pub text: Seq<char>,
    pub style: StyleView,
}

/// One terminal update: a kind from [`diff_kind`], a 1-based position,
/// and for writes the text and its style.
#[derive(Clone, Debug)]
pub struct DiffOp {
    pub kind: i64,
    pub col: i64,
    pub row: i64,
    pub text: String,
    pub style: CellStyle,
}

impl View for DiffOp {
    type V = OpView;

    open spec fn view(&self) -> OpView {
        OpView { kind: self.kind, col: self.col, row: self.row, text: self.text@, style: self.style@ }
    }
}

/// Views of a sequence of operations.
pub open spec fn ops_view(ops: Seq<DiffOp>) -> Seq<OpView> {
    ops.map_values(|o: DiffOp| o@)
}

} // verus!
