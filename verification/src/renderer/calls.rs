//! The renderer's entries as the host calls them: each reads its
//! arguments from host values, runs its operation and builds the result
//! value, or reports the first argument it cannot use. Arguments are read
//! in order; a buffer argument is checked whole before the next one.

use vstd::prelude::*;

use crate::host::{int_of, str_of, HostValue};
use crate::renderer::allocation::{blank_buffer, buffer_new, buffer_resize, check_cell_limit, size_error};
use crate::renderer::blit::{blit_result, buffer_blit, corner_detail};
use crate::renderer::diff::{diff_buffers, diff_spec, ops_out, render_full, render_full_spec, render_ops_to_string};
use crate::renderer::ops::{
    buffer_fill_rect, buffer_put, buffer_write, clear_buffer, fill_update, oob_detail,
    with_cell, write_text_spec, blank_seam_spec,
};
use crate::renderer::pack::{
    buffer_spec, build_buffer, build_diff_result, build_frame_result, cell_spec, is_buffer_value,
    is_diff_result, is_frame_result, is_invalid_arg, ops_spec, parse_buffer, parse_cell,
    parse_diff_ops, style_spec,
};
use crate::renderer::state::{BufferView, RendererError};

verus! {

/// Whether `r` is an `InvalidSize` error with detail `d`.
pub open spec fn is_invalid_size(r: Result<HostValue, RendererError>, d: Seq<char>) -> bool {
    r matches Err(RendererError::InvalidSize(m)) && m@ == d
}

/// Whether `r` is an `OutOfBounds` error with detail `d`.
pub open spec fn is_out_of_bounds(r: Result<HostValue, RendererError>, d: Seq<char>) -> bool {
    r matches Err(RendererError::OutOfBounds(m)) && m@ == d
}

/// Whether `r` holds a string value with text `s`.
pub open spec fn is_str_result(r: Result<HostValue, RendererError>, s: Seq<char>) -> bool {
    r matches Ok(v) && str_of(v) == Some(s)
}

/// Whether `r` holds a screen-buffer pack of `b`.
pub open spec fn is_buffer_result(r: Result<HostValue, RendererError>, b: BufferView) -> bool {
    r matches Ok(v) && is_buffer_value(v, b)
}

fn int_arg(v: &HostValue, complaint: &str) -> (r: Result<i64, RendererError>)
    ensures
        match int_of(*v) {
            Some(i) => r == Ok::<i64, RendererError>(i),
            None => r matches Err(RendererError::InvalidArg(m)) && m@ == complaint@,
        },
{
    match v {
        HostValue::Int(i) => Ok(*i),
        _ => Err(RendererError::InvalidArg(String::from_str(complaint))),
    }
}

/// `BufferNew(cols, rows)`: a blank buffer of that size, once both are
/// at least 1 and within the cell limit.
pub fn buffer_new_impl(cols: &HostValue, rows: &HostValue) -> (r: Result<HostValue, RendererError>)
    ensures
        match int_of(*cols) {
            None => is_invalid_arg(r, "cols must be Int"@),
            Some(c) => match int_of(*rows) {
                None => is_invalid_arg(r, "rows must be Int"@),
                Some(n) => match size_error(c, n) {
                    Some(d) => is_invalid_size(r, d),
                    None => is_buffer_result(r, blank_buffer(c, n, 1, 1, true)),
                },
            },
        },
{
    let c = match int_arg(cols, "cols must be Int") {
        Ok(x) => x,
        Err(e) => return Err(e),
    };
    let n = match int_arg(rows, "rows must be Int") {
        Ok(x) => x,
        Err(e) => return Err(e),
    };
    if c < 1 {
        return Err(RendererError::InvalidSize(String::from_str("cols must be >= 1")));
    }
    if n < 1 {
        return Err(RendererError::InvalidSize(String::from_str("rows must be >= 1")));
    }
    match check_cell_limit(c, n) {
        Ok(()) => {},
        Err(e) => return Err(e),
    }
    proof {
        assert(c * n <= usize::MAX) by (nonlinear_arith)
            requires
                c * n <= 4_000_000,
        ;
    }
    let b = buffer_new(c, n);
    Ok(build_buffer(&b))
}

/// `BufferResize(prev, cols, rows, fill)`: a blank buffer of the new size
/// whose cursor is `prev`'s, clamped into it. `fill` is taken but not
/// consulted: the new cells are always blank.
pub fn buffer_resize_impl(prev: &HostValue, cols: &HostValue, rows: &HostValue, fill: &HostValue) -> (r: Result<
    HostValue,
    RendererError,
>)
    ensures
        match buffer_spec(*prev) {
            Err(d) => is_invalid_arg(r, d),
            Ok(p) => match int_of(*cols) {
                None => is_invalid_arg(r, "cols must be Int"@),
                Some(c) => match int_of(*rows) {
                    None => is_invalid_arg(r, "rows must be Int"@),
                    Some(n) => match size_error(c, n) {
                        Some(d) => is_invalid_size(r, d),
                        None => is_buffer_result(
                            r,
                            blank_buffer(
                                c,
                                n,
                                if p.cursor_col > c { c } else { p.cursor_col },
                                if p.cursor_row > n { n } else { p.cursor_row },
                                p.cursor_visible,
                            ),
                        ),
                    },
                },
            },
        },
{
    let p = match parse_buffer(prev) {
        Ok(b) => b,
        Err(e) => return Err(e),
    };
    let c = match int_arg(cols, "cols must be Int") {
        Ok(x) => x,
        Err(e) => return Err(e),
    };
    let n = match int_arg(rows, "rows must be Int") {
        Ok(x) => x,
        Err(e) => return Err(e),
    };
    if c < 1 {
        return Err(RendererError::InvalidSize(String::from_str("cols must be >= 1")));
    }
    if n < 1 {
        return Err(RendererError::InvalidSize(String::from_str("rows must be >= 1")));
    }
    match check_cell_limit(c, n) {
        Ok(()) => {},
        Err(e) => return Err(e),
    }
    proof {
        assert(c * n <= usize::MAX) by (nonlinear_arith)
            requires
                c * n <= 4_000_000,
        ;
    }
    let b = buffer_resize(&p, c, n);
    Ok(build_buffer(&b))
}

/// `BufferPut(buf, col, row, cell)`: the buffer with that cell replaced.
pub fn buffer_put_impl(buf: &HostValue, col: &HostValue, row: &HostValue, cell: &HostValue) -> (r:
    Result<HostValue, RendererError>)
    ensures
        match buffer_spec(*buf) {
            Err(d) => is_invalid_arg(r, d),
            Ok(b) => match int_of(*col) {
                None => is_invalid_arg(r, "col must be Int"@),
                Some(c) => match int_of(*row) {
                    None => is_invalid_arg(r, "row must be Int"@),
                    Some(w) => match cell_spec(*cell) {
                        Err(d) => is_invalid_arg(r, d),
                        Ok(cv) => match b.index_of(c, w) {
                            None => is_out_of_bounds(r, oob_detail(c, w)),
                            Some(i) => is_buffer_result(
                                r,
                                with_cell(blank_seam_spec(b, c as int, w as int), i, cv),
                            ),
                        },
                    },
                },
            },
        },
{
    let b = match parse_buffer(buf) {
        Ok(b) => b,
        Err(e) => return Err(e),
    };
    let c = match int_arg(col, "col must be Int") {
        Ok(x) => x,
        Err(e) => return Err(e),
    };
    let w = match int_arg(row, "row must be Int") {
        Ok(x) => x,
        Err(e) => return Err(e),
    };
    let cv = match parse_cell(cell) {
        Ok(x) => x,
        Err(e) => return Err(e),
    };
    match buffer_put(b, c, w, cv) {
        Ok(nb) => Ok(build_buffer(&nb)),
        Err(e) => Err(e),
    }
}

/// `BufferWrite(buf, col, row, text, style)`: the buffer with `text`
/// written from that cell on.
pub fn buffer_write_impl(
    buf: &HostValue,
    col: &HostValue,
    row: &HostValue,
    text: &HostValue,
    style: &HostValue,
) -> (r: Result<HostValue, RendererError>)
    ensures
        match buffer_spec(*buf) {
            Err(d) => is_invalid_arg(r, d),
            Ok(b) => match int_of(*col) {
                None => is_invalid_arg(r, "col must be Int"@),
                Some(c) => match int_of(*row) {
                    None => is_invalid_arg(r, "row must be Int"@),
                    Some(w) => match str_of(*text) {
                        None => is_invalid_arg(r, "text must be Str"@),
                        Some(t) => match style_spec(*style) {
                            Err(d) => is_invalid_arg(r, d),
                            Ok(s) => match b.index_of(c, w) {
                                None => is_out_of_bounds(r, oob_detail(c, w)),
                                Some(_) => is_buffer_result(r, write_text_spec(b, c, w, t, s)),
                            },
                        },
                    },
                },
            },
        },
{
    let b = match parse_buffer(buf) {
        Ok(b) => b,
        Err(e) => return Err(e),
    };
    let c = match int_arg(col, "col must be Int") {
        Ok(x) => x,
        Err(e) => return Err(e),
    };
    let w = match int_arg(row, "row must be Int") {
        Ok(x) => x,
        Err(e) => return Err(e),
    };
    let t = match text {
        HostValue::Str(t) => t,
        _ => return Err(RendererError::InvalidArg(String::from_str("text must be Str"))),
    };
    let s = match crate::renderer::pack::parse_style(style) {
        Ok(x) => x,
        Err(e) => return Err(e),
    };
    match buffer_write(b, c, w, t.as_str(), &s) {
        Ok(nb) => Ok(build_buffer(&nb)),
        Err(e) => Err(e),
    }
}

/// `BufferFillRect(buf, col, row, width, height, cell)`: the buffer with
/// the rectangle, clipped to it, filled with `cell`.
pub fn buffer_fill_rect_impl(
    buf: &HostValue,
    col: &HostValue,
    row: &HostValue,
    width: &HostValue,
    height: &HostValue,
    cell: &HostValue,
) -> (r: Result<HostValue, RendererError>)
    ensures
        match buffer_spec(*buf) {
            Err(d) => is_invalid_arg(r, d),
            Ok(b) => match int_of(*col) {
                None => is_invalid_arg(r, "col must be Int"@),
                Some(c) => match int_of(*row) {
                    None => is_invalid_arg(r, "row must be Int"@),
                    Some(w) => match int_of(*width) {
                        None => is_invalid_arg(r, "width must be Int"@),
                        Some(wd) => match int_of(*height) {
                            None => is_invalid_arg(r, "height must be Int"@),
                            Some(ht) => match cell_spec(*cell) {
                                Err(d) => is_invalid_arg(r, d),
                                Ok(cv) => if c < 1 {
                                    is_out_of_bounds(r, "col out of bounds"@)
                                } else if w < 1 {
                                    is_out_of_bounds(r, "row out of bounds"@)
                                } else {
                                    r matches Ok(v) && exists|after: BufferView|
                                        #![trigger is_buffer_value(v, after)]
                                        is_buffer_value(v, after) && fill_update(
                                            b,
                                            after,
                                            cv,
                                            c,
                                            w,
                                            wd,
                                            ht,
                                        )
                                },
                            },
                        },
                    },
                },
            },
        },
{
    let b = match parse_buffer(buf) {
        Ok(b) => b,
        Err(e) => return Err(e),
    };
    let ghost b0 = b@;
    let c = match int_arg(col, "col must be Int") {
        Ok(x) => x,
        Err(e) => return Err(e),
    };
    let w = match int_arg(row, "row must be Int") {
        Ok(x) => x,
        Err(e) => return Err(e),
    };
    let wd = match int_arg(width, "width must be Int") {
        Ok(x) => x,
        Err(e) => return Err(e),
    };
    let ht = match int_arg(height, "height must be Int") {
        Ok(x) => x,
        Err(e) => return Err(e),
    };
    let cv = match parse_cell(cell) {
        Ok(x) => x,
        Err(e) => return Err(e),
    };
    match buffer_fill_rect(b, c, w, wd, ht, &cv) {
        Ok(nb) => {
            let v = build_buffer(&nb);
            proof {
                assert(is_buffer_value(v, BufferView { row_hashes: b0.row_hashes, ..nb@ }));
            }
            Ok(v)
        },
        Err(e) => Err(e),
    }
}

/// `BufferClear(buf, fill)`: the buffer with every cell replaced.
pub fn buffer_clear_impl(buf: &HostValue, fill: &HostValue) -> (r: Result<HostValue, RendererError>)
    ensures
        match buffer_spec(*buf) {
            Err(d) => is_invalid_arg(r, d),
            Ok(b) => match cell_spec(*fill) {
                Err(d) => is_invalid_arg(r, d),
                Ok(cv) => is_buffer_result(
                    r,
                    BufferView { cells: Seq::new(b.cells.len(), |i: int| cv), ..b },
                ),
            },
        },
{
    let mut b = match parse_buffer(buf) {
        Ok(b) => b,
        Err(e) => return Err(e),
    };
    let cv = match parse_cell(fill) {
        Ok(x) => x,
        Err(e) => return Err(e),
    };
    clear_buffer(&mut b, &cv);
    Ok(build_buffer(&b))
}

/// `BufferDiff(prev, next)`: the diff operations and whether a full
/// repaint is needed.
pub fn buffer_diff_impl(prev: &HostValue, next: &HostValue) -> (r: Result<HostValue, RendererError>)
    ensures
        match buffer_spec(*prev) {
            Err(d) => is_invalid_arg(r, d),
            Ok(p) => match buffer_spec(*next) {
                Err(d) => is_invalid_arg(r, d),
                Ok(n) => r matches Ok(v) && is_diff_result(v, diff_spec(p, n).0, diff_spec(p, n).1),
            },
        },
{
    let p = match parse_buffer(prev) {
        Ok(b) => b,
        Err(e) => return Err(e),
    };
    let n = match parse_buffer(next) {
        Ok(b) => b,
        Err(e) => return Err(e),
    };
    let (ops, full) = diff_buffers(&p, &n);
    Ok(build_diff_result(ops.as_slice(), full))
}

/// `RenderFull(buf)`: the text that paints the whole buffer.
pub fn render_full_impl(buf: &HostValue) -> (r: Result<HostValue, RendererError>)
    ensures
        match buffer_spec(*buf) {
            Err(d) => is_invalid_arg(r, d),
            Ok(b) => is_str_result(r, render_full_spec(b)),
        },
{
    let b = match parse_buffer(buf) {
        Ok(b) => b,
        Err(e) => return Err(e),
    };
    Ok(HostValue::Str(render_full(&b)))
}

/// `RenderOps(ops)`: the text of the operations, in order.
pub fn render_ops_impl(ops: &HostValue) -> (r: Result<HostValue, RendererError>)
    ensures
        match ops_spec(*ops) {
            Err(d) => is_invalid_arg(r, d),
            Ok(os) => is_str_result(r, ops_out(os)),
        },
{
    let os = match parse_diff_ops(ops) {
        Ok(x) => x,
        Err(e) => return Err(e),
    };
    Ok(HostValue::Str(render_ops_to_string(os.as_slice())))
}

/// `RenderFrame(prev, next)`: the text of one frame (a full repaint when
/// the dimensions changed, else the diff's operations) and `next`.
pub fn render_frame_impl(prev: &HostValue, next: &HostValue) -> (r: Result<HostValue, RendererError>)
    ensures
        match buffer_spec(*prev) {
            Err(d) => is_invalid_arg(r, d),
            Ok(p) => match buffer_spec(*next) {
                Err(d) => is_invalid_arg(r, d),
                Ok(n) => r matches Ok(v) && is_frame_result(
                    v,
                    if diff_spec(p, n).1 {
                        render_full_spec(n)
                    } else {
                        ops_out(diff_spec(p, n).0)
                    },
                    n,
                ),
            },
        },
{
    let p = match parse_buffer(prev) {
        Ok(b) => b,
        Err(e) => return Err(e),
    };
    let n = match parse_buffer(next) {
        Ok(b) => b,
        Err(e) => return Err(e),
    };
    let (ops, full) = diff_buffers(&p, &n);
    let text = if full {
        render_full(&n)
    } else {
        render_ops_to_string(ops.as_slice())
    };
    Ok(build_frame_result(text.as_str(), &n))
}

/// `BufferBlit(main, sub, col, row)`: `main` with `sub` copied in at that
/// corner, clipped to `main`.
pub fn buffer_blit_impl(main: &HostValue, sub: &HostValue, col: &HostValue, row: &HostValue) -> (r:
    Result<HostValue, RendererError>)
    ensures
        match buffer_spec(*main) {
            Err(d) => is_invalid_arg(r, d),
            Ok(m) => match buffer_spec(*sub) {
                Err(d) => is_invalid_arg(r, d),
                Ok(s) => match int_of(*col) {
                    None => is_invalid_arg(r, "col must be Int"@),
                    Some(c) => match int_of(*row) {
                        None => is_invalid_arg(r, "row must be Int"@),
                        Some(w) => if c < 1 {
                            is_out_of_bounds(r, corner_detail("col"@, c))
                        } else if w < 1 {
                            is_out_of_bounds(r, corner_detail("row"@, w))
                        } else {
                            r matches Ok(v) && exists|after: BufferView|
                                #![trigger is_buffer_value(v, after)]
                                is_buffer_value(v, after) && blit_result(m, s, c, w, after)
                        },
                    },
                },
            },
        },
{
    let m = match parse_buffer(main) {
        Ok(b) => b,
        Err(e) => return Err(e),
    };
    let s = match parse_buffer(sub) {
        Ok(b) => b,
        Err(e) => return Err(e),
    };
    let c = match int_arg(col, "col must be Int") {
        Ok(x) => x,
        Err(e) => return Err(e),
    };
    let w = match int_arg(row, "row must be Int") {
        Ok(x) => x,
        Err(e) => return Err(e),
    };
    let ghost m0 = m@;
    match buffer_blit(m, &s, c, w) {
        Ok(nb) => {
            let v = build_buffer(&nb);
            proof {
                assert(is_buffer_value(v, BufferView { row_hashes: m0.row_hashes, ..nb@ }));
            }
            Ok(v)
        },
        Err(e) => Err(e),
    }
}

} // verus!
