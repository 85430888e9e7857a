//! Unicode display width: per-scalar classification, whole-string width,
//! cell-text normalisation, width-bounded truncation and padding.

pub mod err;

use vstd::prelude::*;
use vstd::string::*;
use vstd::utf8::*;

use crate::error::CallError;
use crate::host::{int_of, names_are, str_of, HostField, HostValue};
use crate::text::{chars_of, push_char};

verus! {

/// `WidthMode` tag: narrow, width 1.
pub const MODE_NARROW: i64 = 0;

/// `WidthMode` tag: East Asian Wide / Fullwidth, width 2.
pub const MODE_WIDE: i64 = 1;

/// `WidthMode` tag: combining mark or control character, width 0.
pub const MODE_ZERO: i64 = 2;

/// `WidthMode` tag: East Asian Ambiguous. Part of the public tag set but
/// never produced: ambiguous scalars are measured as narrow.
pub const MODE_AMBIGUOUS: i64 = 3;

/// C0 controls, DEL and C1 controls.
pub open spec fn spec_is_control(cp: u32) -> bool {
    cp < 0x20 || cp == 0x7F || (0x80 <= cp && cp <= 0x9F)
}

/// Combining marks, zero-width joiners/spaces, variation selectors, the
/// kana voicing marks and the Hangul medial and final jamo (UAX #11).
pub open spec fn spec_is_combining(cp: u32) -> bool {
    ||| 0x0300 <= cp <= 0x036F
    ||| 0x1160 <= cp <= 0x11FF
    ||| 0x1AB0 <= cp <= 0x1AFF
    ||| 0x1DC0 <= cp <= 0x1DFF
    ||| 0x20D0 <= cp <= 0x20FF
    ||| 0xFE20 <= cp <= 0xFE2F
    ||| 0xFE00 <= cp <= 0xFE0F
    ||| cp == 0x200B
    ||| cp == 0x200C
    ||| cp == 0x200D
    ||| cp == 0xFEFF
    ||| 0x3099 <= cp <= 0x309A
    ||| 0xE0100 <= cp <= 0xE01EF
}

/// East Asian Wide and Fullwidth ranges.
pub open spec fn spec_is_wide(cp: u32) -> bool {
    ||| 0x2E80 <= cp <= 0xA4CF
    ||| 0xAC00 <= cp <= 0xD7A3
    ||| 0xF900 <= cp <= 0xFAFF
    ||| 0xFE30 <= cp <= 0xFE4F
    ||| 0xFF01 <= cp <= 0xFF60
    ||| 0xFFE0 <= cp <= 0xFFE6
    ||| 0x1100 <= cp <= 0x115F
    ||| 0x20000 <= cp <= 0x3FFFD
}

/// Cells taken by one scalar: controls and combining marks take none,
/// wide scalars two, everything else one.
pub open spec fn spec_char_width(cp: u32) -> u32 {
    if spec_is_control(cp) {
        0
    } else if spec_is_combining(cp) {
        0
    } else if spec_is_wide(cp) {
        2
    } else {
        1
    }
}

/// `WidthMode` tag of one scalar.
pub open spec fn spec_width_mode(cp: u32) -> i64 {
    if spec_is_control(cp) || spec_is_combining(cp) {
        MODE_ZERO
    } else if spec_is_wide(cp) {
        MODE_WIDE
    } else {
        MODE_NARROW
    }
}

/// Display width of a character sequence: the sum of its scalar widths.
pub open spec fn width_of(s: Seq<char>) -> int
    decreases s.len(),
{
    if s.len() == 0 {
        0
    } else {
        width_of(s.drop_last()) + spec_char_width(s.last() as u32)
    }
}

/// What one input character becomes in cell text: TAB turns into four
/// spaces, LF and CR are dropped, anything else is kept.
pub open spec fn norm_piece(c: char) -> Seq<char> {
    if c == '\t' {
        seq![' ', ' ', ' ', ' ']
    } else if c == '\n' || c == '\r' {
        seq![]
    } else {
        seq![c]
    }
}

/// The pieces of every character, concatenated.
pub open spec fn norm_chars(s: Seq<char>) -> Seq<char>
    decreases s.len(),
{
    if s.len() == 0 {
        seq![]
    } else {
        norm_chars(s.drop_last()) + norm_piece(s.last())
    }
}

/// Normalised cell text: the pieces, or a single space when nothing is left.
pub open spec fn normalize_spec(s: Seq<char>) -> Seq<char> {
    let r = norm_chars(s);
    if r.len() == 0 {
        seq![' ']
    } else {
        r
    }
}

/// The longest prefix whose width fits in `budget`, taken scalar by scalar:
/// stops at the first scalar wider than what is left, and as soon as the
/// budget is used up (zero-width marks that follow are not kept).
pub open spec fn trunc_spec(s: Seq<char>, budget: int) -> Seq<char>
    decreases s.len(),
{
    if s.len() == 0 || budget <= 0 {
        seq![]
    } else if spec_char_width(s[0] as u32) > budget {
        seq![]
    } else {
        seq![s[0]] + trunc_spec(s.drop_first(), budget - spec_char_width(s[0] as u32))
    }
}

/// `n` spaces.
pub open spec fn spaces(n: nat) -> Seq<char>
    decreases n,
{
    if n == 0 {
        seq![]
    } else {
        spaces((n - 1) as nat).push(' ')
    }
}

/// `truncateWidth` result: empty for a budget below 1, else the fitting prefix.
pub open spec fn truncate_width_spec(s: Seq<char>, width: int) -> Seq<char> {
    if width < 1 {
        seq![]
    } else {
        trunc_spec(s, width)
    }
}

/// `padWidth` result: the text, followed by spaces up to `width` cells.
pub open spec fn pad_width_spec(s: Seq<char>, width: int) -> Seq<char> {
    if width_of(s) >= width {
        s
    } else {
        s + spaces((width - width_of(s)) as nat)
    }
}

/// Whether `cp` is a control character.
pub fn is_control(cp: u32) -> (b: bool)
    ensures
        b == spec_is_control(cp),
{
    cp < 0x20 || cp == 0x7F || (0x80 <= cp && cp <= 0x9F)
}

/// Whether `cp` is a zero-width combining or joining scalar.
pub fn is_combining(cp: u32) -> (b: bool)
    ensures
        b == spec_is_combining(cp),
{
    (0x0300 <= cp && cp <= 0x036F) || (0x1160 <= cp && cp <= 0x11FF) || (0x1AB0 <= cp && cp
        <= 0x1AFF) || (0x1DC0 <= cp && cp <= 0x1DFF) || (0x20D0 <= cp && cp <= 0x20FF) || (0xFE20
        <= cp && cp <= 0xFE2F) || (0xFE00 <= cp && cp <= 0xFE0F) || cp == 0x200B || cp == 0x200C
        || cp == 0x200D || cp == 0xFEFF || (0x3099 <= cp && cp <= 0x309A) || (0xE0100 <= cp && cp
        <= 0xE01EF)
}

/// Whether `cp` is East Asian Wide or Fullwidth.
pub fn is_wide(cp: u32) -> (b: bool)
    ensures
        b == spec_is_wide(cp),
{
    (0x2E80 <= cp && cp <= 0xA4CF) || (0xAC00 <= cp && cp <= 0xD7A3) || (0xF900 <= cp && cp
        <= 0xFAFF) || (0xFE30 <= cp && cp <= 0xFE4F) || (0xFF01 <= cp && cp <= 0xFF60) || (0xFFE0
        <= cp && cp <= 0xFFE6) || (0x1100 <= cp && cp <= 0x115F) || (0x20000 <= cp && cp
        <= 0x3FFFD)
}

/// Cells taken by the scalar `cp` (0, 1 or 2).
pub fn char_width(cp: u32) -> (w: u32)
    ensures
        w == spec_char_width(cp),
        w <= 2,
{
    if is_control(cp) {
        return 0;
    }
    if is_combining(cp) {
        return 0;
    }
    if is_wide(cp) {
        return 2;
    }
    1
}

/// `WidthMode` tag of the scalar `cp`.
pub fn width_mode(cp: u32) -> (m: i64)
    ensures
        m == spec_width_mode(cp),
{
    if is_control(cp) || is_combining(cp) {
        return MODE_ZERO;
    }
    if is_wide(cp) {
        return MODE_WIDE;
    }
    MODE_NARROW
}

/// Width is additive over concatenation.
pub proof fn lemma_width_concat(a: Seq<char>, b: Seq<char>)
    ensures
        width_of(a + b) == width_of(a) + width_of(b),
    decreases b.len(),
{
    if b.len() == 0 {
        assert(a + b =~= a);
    } else {
        lemma_width_concat(a, b.drop_last());
        assert((a + b).drop_last() =~= a + b.drop_last());
        assert((a + b).last() == b.last());
    }
}

/// Widths are never negative.
pub proof fn lemma_width_nonneg(s: Seq<char>)
    ensures
        width_of(s) >= 0,
    decreases s.len(),
{
    if s.len() > 0 {
        lemma_width_nonneg(s.drop_last());
    }
}

/// A string is never wider than its UTF-8 encoding is long: a scalar of
/// width 2 lies at or above U+1100 and so takes at least three bytes.
pub proof fn lemma_width_le_bytes(s: Seq<char>)
    ensures
        width_of(s) <= encode_utf8(s).len(),
    decreases s.len(),
{
    if s.len() > 0 {
        let rest = s.drop_first();
        lemma_width_le_bytes(rest);
        lemma_width_concat(seq![s[0]], rest);
        assert(seq![s[0]] + rest =~= s);
        assert(width_of(seq![s[0]]) == spec_char_width(s[0] as u32)) by {
            assert(seq![s[0]].drop_last() =~= Seq::<char>::empty());
            assert(width_of(Seq::<char>::empty()) == 0);
        }
        let cp = s[0] as u32;
        assert(is_scalar(cp)) by {
            char_is_scalar(s[0]);
        }
        assert(encode_scalar(cp).len() >= spec_char_width(cp));
    }
}

/// Total display width of `text` in terminal cells.
pub fn display_width(text: &str) -> (w: i64)
    requires
        text.spec_bytes().len() <= isize::MAX,
    ensures
        w == width_of(text@),
{
    let mut total: i64 = 0;
    proof {
        lemma_width_le_bytes(text@);
    }
    for c in it: text.chars()
        invariant
            it.seq() == text@,
            total == width_of(text@.take(it.index() as int)),
            width_of(text@) <= isize::MAX,
    {
        let ghost i = it.index() as int;
        proof {
            assert(text@.take(i + 1).drop_last() =~= text@.take(i));
            lemma_width_concat(text@.take(i + 1), text@.skip(i + 1));
            assert(text@.take(i + 1) + text@.skip(i + 1) =~= text@);
            lemma_width_nonneg(text@.skip(i + 1));
        }
        total = total + char_width(c as u32) as i64;
    }
    proof {
        assert(text@.take(text@.len() as int) =~= text@);
    }
    total
}

/// Width and `WidthMode` of the first scalar of `text`; `(0, MODE_ZERO)`
/// for the empty string.
pub fn measure_grapheme(text: &str) -> (r: (i64, i64))
    ensures
        text@.len() == 0 ==> r == (0i64, MODE_ZERO),
        text@.len() > 0 ==> r == (spec_char_width(text@[0] as u32) as i64, spec_width_mode(
            text@[0] as u32,
        )),
{
    if text.is_empty() {
        return (0, MODE_ZERO);
    }
    let c = text.get_char(0);
    let cp = c as u32;
    (char_width(cp) as i64, width_mode(cp))
}

/// Cell text for `text`: TAB becomes four spaces, LF/CR are dropped, and an
/// empty result becomes a single space.
pub fn normalize_cell_text(text: &str) -> (r: String)
    ensures
        r@ == normalize_spec(text@),
{
    let mut out = String::new();
    for c in it: text.chars()
        invariant
            it.seq() == text@,
            out@ == norm_chars(text@.take(it.index() as int)),
    {
        let ghost i = it.index() as int;
        proof {
            assert(text@.take(i + 1).drop_last() =~= text@.take(i));
        }
        if c == '\t' {
            push_char(&mut out, ' ');
            push_char(&mut out, ' ');
            push_char(&mut out, ' ');
            push_char(&mut out, ' ');
        } else if c == '\n' || c == '\r' {
        } else {
            push_char(&mut out, c);
        }
        proof {
            assert(out@ =~= norm_chars(text@.take(i + 1)));
        }
    }
    proof {
        assert(text@.take(text@.len() as int) =~= text@);
    }
    if out.as_str().is_empty() {
        let mut sp = String::new();
        push_char(&mut sp, ' ');
        return sp;
    }
    out
}

/// The longest prefix of `text` that fits in `width` cells, never splitting
/// a wide scalar; empty when `width < 1`.
pub fn truncate_width(text: &str, width: i64) -> (r: String)
    ensures
        r@ == truncate_width_spec(text@, width as int),
{
    if width < 1 || text.is_empty() {
        return String::new();
    }
    let chars = chars_of(text);
    let ghost s = text@;
    let mut remaining = width;
    let mut out = String::new();
    let mut i: usize = 0;
    proof {
        assert(s.skip(0) =~= s);
        assert(out@ + trunc_spec(s.skip(0), remaining as int) =~= trunc_spec(s, width as int));
    }
    while i < chars.len()
        invariant
            chars@ == s,
            s == text@,
            0 <= i <= chars.len(),
            width >= 1,
            remaining <= width,
            out@ + trunc_spec(s.skip(i as int), remaining as int) == trunc_spec(s, width as int),
        decreases chars.len() - i,
    {
        if remaining <= 0 {
            proof {
                assert(trunc_spec(s.skip(i as int), remaining as int) =~= Seq::<char>::empty());
                assert(out@ + trunc_spec(s.skip(i as int), remaining as int) =~= out@);
            }
            return out;
        }
        let c = chars[i];
        let w = char_width(c as u32) as i64;
        proof {
            assert(s.skip(i as int)[0] == c);
            assert(s.skip(i as int).drop_first() =~= s.skip(i + 1));
        }
        if w > remaining {
            proof {
                assert(s.skip(i as int).len() > 0);
                assert(spec_char_width(s.skip(i as int)[0] as u32) > remaining);
                assert(trunc_spec(s.skip(i as int), remaining as int) =~= Seq::<char>::empty());
                assert(out@ + trunc_spec(s.skip(i as int), remaining as int) =~= out@);
            }
            return out;
        }
        proof {
            assert(out@.push(c) + trunc_spec(s.skip(i + 1), (remaining - w) as int) =~= out@
                + trunc_spec(s.skip(i as int), remaining as int));
        }
        push_char(&mut out, c);
        remaining = remaining - w;
        i = i + 1;
    }
    proof {
        assert(s.skip(i as int) =~= Seq::<char>::empty());
        assert(out@ + trunc_spec(s.skip(i as int), remaining as int) =~= out@);
    }
    out
}

/// `text` padded on the right with spaces up to `width` cells; unchanged
/// when it is already at least that wide.
pub fn pad_width(text: &str, width: i64) -> (r: String)
    requires
        text.spec_bytes().len() <= isize::MAX,
    ensures
        r@ == pad_width_spec(text@, width as int),
{
    let current = display_width(text);
    proof {
        lemma_width_nonneg(text@);
    }
    if current >= width {
        return text.to_string();
    }
    let pad: i64 = width - current;
    let mut out = text.to_string();
    let mut k: i64 = 0;
    while k < pad
        invariant
            0 <= k <= pad,
            out@ == text@ + spaces(k as nat),
        decreases pad - k,
    {
        push_char(&mut out, ' ');
        proof {
            assert(spaces((k + 1) as nat) == spaces(k as nat).push(' '));
            assert(out@ =~= text@ + spaces((k + 1) as nat));
        }
        k = k + 1;
    }
    out
}


/// The width of `n` spaces is `n`.
proof fn lemma_spaces_width(n: nat)
    ensures
        width_of(spaces(n)) == n,
        spaces(n).len() == n,
    decreases n,
{
    if n > 0 {
        lemma_spaces_width((n - 1) as nat);
        assert(spaces(n).drop_last() =~= spaces((n - 1) as nat));
        assert(spec_char_width(' ' as u32) == 1);
    }
}

/// The width of one scalar followed by more text.
proof fn lemma_width_cons(c: char, t: Seq<char>)
    ensures
        width_of(seq![c] + t) == spec_char_width(c as u32) + width_of(t),
{
    lemma_width_concat(seq![c], t);
    assert(seq![c].drop_last() =~= Seq::<char>::empty());
    assert(seq![c].last() == c);
    assert(width_of(Seq::<char>::empty()) == 0);
    assert(width_of(seq![c]) == spec_char_width(c as u32));
}

proof fn lemma_trunc_fits(s: Seq<char>, budget: int)
    requires
        budget >= 0,
    ensures
        trunc_spec(s, budget).len() <= s.len(),
        s.take(trunc_spec(s, budget).len() as int) == trunc_spec(s, budget),
        width_of(trunc_spec(s, budget)) <= budget,
    decreases s.len(),
{
    if s.len() > 0 && spec_char_width(s[0] as u32) <= budget {
        let c = spec_char_width(s[0] as u32) as int;
        let rest = s.drop_first();
        let t = trunc_spec(rest, budget - c);
        lemma_trunc_fits(rest, budget - c);
        lemma_width_cons(s[0], t);
        assert(s.take(t.len() + 1int) =~= seq![s[0]] + rest.take(t.len() as int));
    } else {
        assert(s.take(0) =~= Seq::<char>::empty());
    }
}

/// `truncateWidth` gives a prefix of the text whose display width fits
/// in `width` cells (none for a width below 1): a wide character is
/// never split.
pub proof fn law_truncate_fits(s: Seq<char>, width: int)
    ensures
        truncate_width_spec(s, width).len() <= s.len(),
        s.take(truncate_width_spec(s, width).len() as int) == truncate_width_spec(s, width),
        width_of(truncate_width_spec(s, width)) <= (if width < 1 { 0 } else { width }),
{
    if width >= 1 {
        lemma_trunc_fits(s, width);
    } else {
        assert(s.take(0) =~= Seq::<char>::empty());
    }
}

/// Where truncation stops early, the budget is used up or the next
/// scalar does not fit.
proof fn lemma_trunc_stops(s: Seq<char>, budget: int)
    requires
        budget >= 0,
    ensures
        ({
            let t = trunc_spec(s, budget);
            t.len() < s.len() ==> width_of(t) == budget || width_of(t) + spec_char_width(
                s[t.len() as int] as u32,
            ) > budget
        }),
    decreases s.len(),
{
    lemma_trunc_fits(s, budget);
    if s.len() > 0 && budget > 0 && spec_char_width(s[0] as u32) <= budget {
        let c = spec_char_width(s[0] as u32) as int;
        let rest = s.drop_first();
        let t = trunc_spec(rest, budget - c);
        lemma_trunc_stops(rest, budget - c);
        lemma_trunc_fits(rest, budget - c);
        lemma_width_cons(s[0], t);
        if t.len() < rest.len() {
            assert(s[t.len() + 1int] == rest[t.len() as int]);
        }
    }
}

/// `truncateWidth` stops only when it must: whenever it leaves scalars
/// out, either the whole `width` is used or the first scalar left out
/// would not fit in what remains.
pub proof fn law_truncate_stops_only_when_full(s: Seq<char>, width: int)
    requires
        width >= 1,
    ensures
        ({
            let t = truncate_width_spec(s, width);
            t.len() < s.len() ==> width_of(t) == width || width_of(t) + spec_char_width(
                s[t.len() as int] as u32,
            ) > width
        }),
{
    lemma_trunc_stops(s, width);
}

/// Text without TAB, LF or CR.
pub open spec fn is_clean(s: Seq<char>) -> bool {
    forall|i: int| 0 <= i < s.len() ==> #[trigger] s[i] != '\t' && s[i] != '\n' && s[i] != '\r'
}

/// Normalised characters hold no TAB, LF or CR.
proof fn lemma_norm_chars_clean(s: Seq<char>)
    ensures
        is_clean(norm_chars(s)),
    decreases s.len(),
{
    if s.len() > 0 {
        lemma_norm_chars_clean(s.drop_last());
        let a = norm_chars(s.drop_last());
        let p = norm_piece(s.last());
        assert forall|i: int| 0 <= i < (a + p).len() implies #[trigger] (a + p)[i] != '\t' && (a
            + p)[i] != '\n' && (a + p)[i] != '\r' by {
            if i < a.len() {
                assert((a + p)[i] == a[i]);
            } else {
                assert((a + p)[i] == p[i - a.len()]);
            }
        }
    }
}

/// Clean text normalises to itself, character for character.
proof fn lemma_norm_chars_clean_fixed(s: Seq<char>)
    requires
        is_clean(s),
    ensures
        norm_chars(s) == s,
    decreases s.len(),
{
    if s.len() > 0 {
        assert(is_clean(s.drop_last())) by {
            assert forall|i: int| 0 <= i < s.drop_last().len() implies #[trigger] s.drop_last()[i]
                != '\t' && s.drop_last()[i] != '\n' && s.drop_last()[i] != '\r' by {
                assert(s.drop_last()[i] == s[i]);
            }
        }
        lemma_norm_chars_clean_fixed(s.drop_last());
        assert(s[s.len() - 1] == s.last());
        assert(norm_chars(s) =~= s.drop_last().push(s.last()));
    }
}

/// Normalising cell text twice gives what normalising it once gives.
pub proof fn law_normalize_idempotent(s: Seq<char>)
    ensures
        normalize_spec(normalize_spec(s)) == normalize_spec(s),
{
    let r = norm_chars(s);
    lemma_norm_chars_clean(s);
    if r.len() == 0 {
        let sp = seq![' '];
        assert(is_clean(sp)) by {
            assert forall|i: int| 0 <= i < sp.len() implies #[trigger] sp[i] != '\t' && sp[i] != '\n'
                && sp[i] != '\r' by {
                assert(sp[i] == ' ');
            }
        }
        lemma_norm_chars_clean_fixed(sp);
    } else {
        lemma_norm_chars_clean_fixed(r);
    }
}

/// `padWidth` leaves a text that is already `width` cells wide or wider
/// unchanged; a narrower one it extends, keeping it as a prefix, to
/// exactly `width` cells.
pub proof fn law_pad_reaches_width(s: Seq<char>, width: int)
    ensures
        width_of(s) >= width ==> pad_width_spec(s, width) == s,
        width_of(s) < width ==> width_of(pad_width_spec(s, width)) == width
            && pad_width_spec(s, width).take(s.len() as int) == s,
{
    if width_of(s) < width {
        let n = (width - width_of(s)) as nat;
        lemma_spaces_width(n);
        lemma_width_concat(s, spaces(n));
        assert((s + spaces(n)).take(s.len() as int) =~= s);
    }
}

// ── Entries ──────────────────────────────────────────────────────

/// Whether `r` is the invalid-argument error with detail `d`.
pub open spec fn is_width_invalid_arg(r: Result<HostValue, CallError>, d: Seq<char>) -> bool {
    r matches Err(e) && e.code == err::WIDTH_INVALID_ARG && e.message@ == "WidthInvalidArg: "@ + d
}

/// A text argument the host can hold: its UTF-8 encoding fits in an
/// `isize`, as every Rust string's does.
pub open spec fn text_fits(v: HostValue) -> bool {
    match str_of(v) {
        Some(t) => encode_utf8(t).len() <= isize::MAX,
        None => true,
    }
}

fn width_invalid(detail: &str) -> (e: CallError)
    ensures
        e.code == err::WIDTH_INVALID_ARG,
        e.message@ == "WidthInvalidArg: "@ + detail@,
{
    let mut m = String::new();
    crate::text::push_str(&mut m, "WidthInvalidArg: ");
    crate::text::push_str(&mut m, detail);
    CallError { code: err::WIDTH_INVALID_ARG, message: m }
}

/// `measureGrapheme(text)`: `@(width, mode)` of its first scalar.
pub fn measure_grapheme_impl(text: &HostValue) -> (r: Result<HostValue, CallError>)
    ensures
        match str_of(*text) {
            None => is_width_invalid_arg(r, "text must be a Str"@),
            Some(t) => r matches Ok(HostValue::Pack(fs)) && names_are(fs@, seq!["width"@, "mode"@])
                && int_of(fs@[0].value) == Some(
                if t.len() == 0 { 0i64 } else { spec_char_width(t[0] as u32) as i64 },
            ) && int_of(fs@[1].value) == Some(
                if t.len() == 0 { MODE_ZERO } else { spec_width_mode(t[0] as u32) },
            ),
        },
{
    let t = match text {
        HostValue::Str(t) => t,
        _ => return Err(width_invalid("text must be a Str")),
    };
    let (w, m) = measure_grapheme(t.as_str());
    let mut fs: Vec<HostField> = Vec::new();
    fs.push(HostField { name: String::from_str("width"), value: HostValue::Int(w) });
    fs.push(HostField { name: String::from_str("mode"), value: HostValue::Int(m) });
    proof {
        assert(names_are(fs@, seq!["width"@, "mode"@])) by {
            assert forall|i: int| 0 <= i < fs@.len() implies #[trigger] fs@[i].name@ == seq![
                "width"@,
                "mode"@,
            ][i] by {
                if i == 0 {} else {}
            }
        }
    }
    Ok(HostValue::Pack(fs))
}

/// `displayWidth(text)`: its width in cells.
pub fn display_width_impl(text: &HostValue) -> (r: Result<HostValue, CallError>)
    requires
        text_fits(*text),
    ensures
        match str_of(*text) {
            None => is_width_invalid_arg(r, "text must be a Str"@),
            Some(t) => r matches Ok(v) && int_of(v) == Some(width_of(t) as i64),
        },
{
    let t = match text {
        HostValue::Str(t) => t,
        _ => return Err(width_invalid("text must be a Str")),
    };
    Ok(HostValue::Int(display_width(t.as_str())))
}

/// `normalizeCellText(text)`: its cell text.
pub fn normalize_cell_text_impl(text: &HostValue) -> (r: Result<HostValue, CallError>)
    ensures
        match str_of(*text) {
            None => is_width_invalid_arg(r, "text must be a Str"@),
            Some(t) => r matches Ok(v) && str_of(v) == Some(normalize_spec(t)),
        },
{
    let t = match text {
        HostValue::Str(t) => t,
        _ => return Err(width_invalid("text must be a Str")),
    };
    Ok(HostValue::Str(normalize_cell_text(t.as_str())))
}

/// `truncateWidth(text, width)`: its longest prefix that fits.
pub fn truncate_width_impl(text: &HostValue, width: &HostValue) -> (r: Result<HostValue, CallError>)
    ensures
        match str_of(*text) {
            None => is_width_invalid_arg(r, "text must be a Str"@),
            Some(t) => match int_of(*width) {
                None => is_width_invalid_arg(r, "width must be an Int"@),
                Some(w) => r matches Ok(v) && str_of(v) == Some(truncate_width_spec(t, w as int)),
            },
        },
{
    let t = match text {
        HostValue::Str(t) => t,
        _ => return Err(width_invalid("text must be a Str")),
    };
    let w = match width {
        HostValue::Int(w) => *w,
        _ => return Err(width_invalid("width must be an Int")),
    };
    Ok(HostValue::Str(truncate_width(t.as_str(), w)))
}

/// `padWidth(text, width)`: it padded with spaces to the width.
pub fn pad_width_impl(text: &HostValue, width: &HostValue) -> (r: Result<HostValue, CallError>)
    requires
        text_fits(*text),
    ensures
        match str_of(*text) {
            None => is_width_invalid_arg(r, "text must be a Str"@),
            Some(t) => match int_of(*width) {
                None => is_width_invalid_arg(r, "width must be an Int"@),
                Some(w) => r matches Ok(v) && str_of(v) == Some(pad_width_spec(t, w as int)),
            },
        },
{
    let t = match text {
        HostValue::Str(t) => t,
        _ => return Err(width_invalid("text must be a Str")),
    };
    let w = match width {
        HostValue::Int(w) => *w,
        _ => return Err(width_invalid("width must be an Int")),
    };
    Ok(HostValue::Str(pad_width(t.as_str(), w)))
}

} // verus!
