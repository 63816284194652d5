//! How a line of the response body is coloured, and which part of it is
//! selected.
use vstd::prelude::*;
use crate::app::strip_suffixes;
use crate::edits::strip_suffixes_exec;
use crate::text::{copy_text, has_prefix, is_white_space, is_white_space_exec, slice_text, trim, trim_start, trim_text};

verus! {

/// How a piece of a response line is coloured.
#[derive(PartialEq, Eq, Structural, Clone, Copy, Debug)]
pub enum Shade {
    /// Indentation.
    Plain,
    /// An object key.
    Key,
    /// The `: ` after a key.
    Separator,
    /// A string value.
    Text,
    /// `true` or `false`.
    Boolean,
    /// `null`.
    Null,
    /// A number.
    Number,
    /// Anything else.
    Other,
}

pub open spec fn is_digit(c: char) -> bool {
    '0' <= c <= '9'
}

pub open spec fn all_digits(s: Seq<char>) -> bool {
    forall|i: int| 0 <= i < s.len() ==> is_digit(#[trigger] s[i])
}

/// The text without one leading `+` or `-`.
pub open spec fn unsigned(s: Seq<char>) -> Seq<char> {
    if s.len() > 0 && (s[0] == '+' || s[0] == '-') {
        s.drop_first()
    } else {
        s
    }
}

/// Whether `c` is the ASCII letter `lower` in either case.
pub open spec fn same_letter(c: char, lower: char) -> bool {
    c == lower || (c as u32) + 32 == (lower as u32)
}

/// Whether `s` is the lower-case ASCII word `w` in any mix of cases.
pub open spec fn is_word_ignoring_case(s: Seq<char>, w: Seq<char>) -> bool {
    s.len() == w.len() && forall|i: int| 0 <= i < s.len() ==> same_letter(#[trigger] s[i], w[i])
}

/// The index of the first character of `s` satisfying `e` or `E`, or the
/// length of `s`.
pub open spec fn first_exp(s: Seq<char>) -> int
    decreases s.len(),
{
    if s.len() == 0 {
        0
    } else if s[0] == 'e' || s[0] == 'E' {
        0
    } else {
        1 + first_exp(s.drop_first())
    }
}

/// The index of the first `.`, or the length.
pub open spec fn first_dot(s: Seq<char>) -> int
    decreases s.len(),
{
    if s.len() == 0 {
        0
    } else if s[0] == '.' {
        0
    } else {
        1 + first_dot(s.drop_first())
    }
}

/// Digits with at most one `.`, and at least one digit.
pub open spec fn is_mantissa(m: Seq<char>) -> bool {
    let d = first_dot(m);
    &&& all_digits(m.take(d))
    &&& (d < m.len() ==> all_digits(m.skip(d + 1)))
    &&& (d > 0 || m.len() > d + 1)
}

/// Empty, or `e`/`E`, an optional sign and at least one digit.
pub open spec fn is_exponent(x: Seq<char>) -> bool {
    x.len() == 0 || (x.len() >= 2 && (x[0] == 'e' || x[0] == 'E') && unsigned(x.drop_first()).len()
        > 0 && all_digits(unsigned(x.drop_first())))
}

/// Whether a text is a floating-point number as `f64::from_str` accepts it:
/// an optional sign, then `inf`, `infinity` or `nan` in any case, or
/// digits with at most one `.` (at least one digit) and an optional
/// exponent (`e` or `E`, an optional sign, digits).
pub open spec fn is_float_text(s: Seq<char>) -> bool {
    let t = unsigned(s);
    ||| is_word_ignoring_case(t, "inf"@)
    ||| is_word_ignoring_case(t, "infinity"@)
    ||| is_word_ignoring_case(t, "nan"@)
    ||| (is_mantissa(t.take(first_exp(t))) && is_exponent(t.skip(first_exp(t))))
}

/// The shade of a value: strings, booleans, null, numbers, anything else.
pub open spec fn value_shade(v: Seq<char>) -> Shade {
    if has_prefix(v, seq!['"']) {
        Shade::Text
    } else if v == "true"@ || v == "false"@ {
        Shade::Boolean
    } else if v == "null"@ {
        Shade::Null
    } else if is_float_text(v) {
        Shade::Number
    } else {
        Shade::Other
    }
}

/// A value without its trailing commas, and how it is coloured.
pub open spec fn colorize_value_of(val: Seq<char>) -> (Seq<char>, Shade) {
    let v = strip_suffixes(val, seq![',']);
    (v, value_shade(v))
}

/// The index of the first `:` in `s`, or its length.
pub open spec fn first_colon(s: Seq<char>) -> int
    decreases s.len(),
{
    if s.len() == 0 {
        0
    } else if s[0] == ':' {
        0
    } else {
        1 + first_colon(s.drop_first())
    }
}

/// The coloured pieces of a response line: its indentation, then either a
/// quoted key, `: ` and its value (when the text before the first `:` is a
/// quoted key) or the rest of the line as one value.
pub open spec fn colorize_line_of(line: Seq<char>) -> Seq<(Seq<char>, Shade)> {
    let t = trim_start(line);
    let indent = line.take(line.len() - t.len());
    let p = first_colon(t);
    let key = trim(t.take(p));
    if p < t.len() && key.len() > 0 && key[0] == '"' && key.last() == '"' {
        seq![
            (indent, Shade::Plain),
            (key, Shade::Key),
            (seq![':', ' '], Shade::Separator),
            colorize_value_of(trim(t.skip(p + 1))),
        ]
    } else {
        seq![(indent, Shade::Plain), colorize_value_of(t)]
    }
}

proof fn lemma_first_index(s: Seq<char>)
    ensures
        0 <= first_exp(s) <= s.len(),
        0 <= first_dot(s) <= s.len(),
        0 <= first_colon(s) <= s.len(),
        forall|i: int| 0 <= i < first_exp(s) ==> s[i] != 'e' && s[i] != 'E',
        first_exp(s) < s.len() ==> (s[first_exp(s)] == 'e' || s[first_exp(s)] == 'E'),
        forall|i: int| 0 <= i < first_dot(s) ==> s[i] != '.',
        first_dot(s) < s.len() ==> s[first_dot(s)] == '.',
        forall|i: int| 0 <= i < first_colon(s) ==> s[i] != ':',
        first_colon(s) < s.len() ==> s[first_colon(s)] == ':',
    decreases s.len(),
{
    if s.len() > 0 {
        lemma_first_index(s.drop_first());
        assert forall|i: int| 0 < i < s.len() implies s[i] == s.drop_first()[i - 1] by {}
    }
}

/// The index of the first of the characters `a` or `b` in `s`, or its
/// length.
fn first_of(s: &Vec<char>, a: char, b: char) -> (r: usize)
    ensures
        r <= s.len(),
        forall|i: int| 0 <= i < r ==> s@[i] != a && s@[i] != b,
        r < s.len() ==> (s@[r as int] == a || s@[r as int] == b),
{
    let mut i: usize = 0;
    while i < s.len() && s[i] != a && s[i] != b
        invariant
            i <= s.len(),
            forall|j: int| 0 <= j < i ==> s@[j] != a && s@[j] != b,
        decreases s.len() - i,
    {
        i = i + 1;
    }
    i
}

/// The first index satisfying the search, characterised.
proof fn lemma_first_unique(s: Seq<char>, r: int, which: int)
    requires
        0 <= r <= s.len(),
        which == 0 ==> (forall|i: int| 0 <= i < r ==> s[i] != 'e' && s[i] != 'E') && (r < s.len() ==> (
        s[r] == 'e' || s[r] == 'E')),
        which == 1 ==> (forall|i: int| 0 <= i < r ==> s[i] != '.') && (r < s.len() ==> s[r] == '.'),
        which == 2 ==> (forall|i: int| 0 <= i < r ==> s[i] != ':') && (r < s.len() ==> s[r] == ':'),
    ensures
        which == 0 ==> r == first_exp(s),
        which == 1 ==> r == first_dot(s),
        which == 2 ==> r == first_colon(s),
    decreases s.len(),
{
    if s.len() > 0 && r > 0 {
        lemma_first_unique(s.drop_first(), r - 1, which);
    }
}

fn all_digits_exec(s: &Vec<char>, from: usize, to: usize) -> (r: bool)
    requires
        from <= to <= s.len(),
    ensures
        r == all_digits(s@.subrange(from as int, to as int)),
{
    let mut i = from;
    while i < to
        invariant
            from <= i <= to,
            to <= s.len(),
            forall|j: int| from <= j < i ==> is_digit(s@[j]),
        decreases to - i,
    {
        if !('0' <= s[i] && s[i] <= '9') {
            proof {
                assert(s@.subrange(from as int, to as int)[i - from] == s@[i as int]);
                assert(!is_digit(s@.subrange(from as int, to as int)[i - from]));
            }
            return false;
        }
        i = i + 1;
    }
    proof {
        assert forall|j: int| 0 <= j < to - from implies is_digit(
            #[trigger] s@.subrange(from as int, to as int)[j],
        ) by {
            assert(s@.subrange(from as int, to as int)[j] == s@[from + j]);
        }
    }
    true
}

fn same_letter_exec(c: char, lower: char) -> (r: bool)
    ensures
        r == same_letter(c, lower),
{
    c == lower || (c as u32) + 32 == (lower as u32)
}

fn is_word_ignoring_case_exec(s: &Vec<char>, from: usize, w: &Vec<char>) -> (r: bool)
    requires
        from <= s.len(),
    ensures
        r == is_word_ignoring_case(s@.skip(from as int), w@),
{
    let n = w.len();
    if s.len() - from != n {
        return false;
    }
    let mut i: usize = 0;
    while i < n
        invariant
            i <= n,
            n == w@.len(),
            from <= s.len(),
            s.len() - from == n,
            forall|j: int| 0 <= j < i ==> same_letter(#[trigger] s@.skip(from as int)[j], w@[j]),
        decreases n - i,
    {
        proof {
            assert(s@.skip(from as int)[i as int] == s@[from + i]);
        }
        if !same_letter_exec(s[from + i], w[i]) {
            return false;
        }
        i = i + 1;
    }
    true
}

/// Whether a text is a floating-point number as `f64::from_str` accepts it.
pub fn is_float_text_exec(s: &Vec<char>) -> (r: bool)
    ensures
        r == is_float_text(s@),
{
    let start: usize = if s.len() > 0 && (s[0] == '+' || s[0] == '-') {
        1
    } else {
        0
    };
    let ghost t = unsigned(s@);
    proof {
        assert(t =~= s@.skip(start as int));
    }
    let inf = crate::text::chars_of("inf");
    let infinity = crate::text::chars_of("infinity");
    let nan = crate::text::chars_of("nan");
    if is_word_ignoring_case_exec(s, start, &inf) || is_word_ignoring_case_exec(s, start, &infinity)
        || is_word_ignoring_case_exec(s, start, &nan) {
        return true;
    }
    let u = slice_text(s, start, s.len());
    assert(u@ =~= t);
    let e = first_of(&u, 'e', 'E');
    let m = slice_text(&u, 0, e);
    let d = first_of(&m, '.', '.');
    proof {
        lemma_first_unique(t, e as int, 0);
        assert(m@ =~= t.take(e as int));
        lemma_first_unique(m@, d as int, 1);
    }
    let mantissa_ok = all_digits_exec(&u, 0, d) && (d == e || all_digits_exec(&u, d + 1, e)) && (d > 0
        || e > d + 1);
    proof {
        let m = t.take(e as int);
        assert(m.take(d as int) =~= u@.subrange(0, d as int));
        if d < e {
            assert(m.skip(d + 1) =~= u@.subrange(d + 1, e as int));
        }
    }
    let exp_ok = if e == u.len() {
        true
    } else {
        let sign: usize = if e + 1 < u.len() && (u[e + 1] == '+' || u[e + 1] == '-') {
            1
        } else {
            0
        };
        let from = e + 1 + sign;
        proof {
            let x = t.skip(e as int);
            assert(unsigned(x.drop_first()) =~= u@.subrange(from as int, u@.len() as int));
        }
        u.len() - e >= 2 && from < u.len() && all_digits_exec(&u, from, u.len())
    };
    proof {
        let x = t.skip(e as int);
        if e == u.len() {
            assert(x.len() == 0);
        }
    }
    mantissa_ok && exp_ok
}

/// A value without its trailing commas, and how it is coloured.
pub fn colorize_value(val: &Vec<char>) -> (r: (Vec<char>, Shade))
    ensures
        (r.0@, r.1) == colorize_value_of(val@),
{
    let mut comma: Vec<char> = Vec::new();
    comma.push(',');
    proof {
        assert(comma@ =~= seq![',']);
    }
    let v = strip_suffixes_exec(val, &comma);
    let shade = if v.len() > 0 && v[0] == '"' {
        Shade::Text
    } else if crate::text::text_eq(&v, &crate::text::chars_of("true")) || crate::text::text_eq(
        &v,
        &crate::text::chars_of("false"),
    ) {
        Shade::Boolean
    } else if crate::text::text_eq(&v, &crate::text::chars_of("null")) {
        Shade::Null
    } else if is_float_text_exec(&v) {
        Shade::Number
    } else {
        Shade::Other
    };
    proof {
        if v@.len() > 0 && v@[0] == '"' {
            assert(v@.subrange(0, 1) =~= seq!['"']);
        }
        if has_prefix(v@, seq!['"']) {
            assert(v@.subrange(0, 1)[0] == v@[0]);
        }
    }
    (v, shade)
}

/// The coloured pieces of a response line.
pub fn colorize_json_line(line: &Vec<char>) -> (r: Vec<(Vec<char>, Shade)>)
    ensures
        r@.len() == colorize_line_of(line@).len(),
        forall|i: int|
            0 <= i < r@.len() ==> (#[trigger] r@[i].0@, r@[i].1) == colorize_line_of(line@)[i],
{
    let mut a: usize = 0;
    while a < line.len() && is_white_space_exec(line[a])
        invariant
            a <= line.len(),
            forall|j: int| 0 <= j < a ==> is_white_space(line@[j]),
        decreases line.len() - a,
    {
        a = a + 1;
    }
    proof {
        crate::text::lemma_trim_start_skip(line@, a as int);
        if a < line.len() {
            assert(!is_white_space(line@.skip(a as int)[0]));
        }
    }
    let t = slice_text(line, a, line.len());
    let indent = slice_text(line, 0, a);
    proof {
        assert(t@ =~= line@.skip(a as int));
        assert(t@ == trim_start(line@));
        assert(indent@ =~= line@.take(line@.len() - t@.len()));
    }
    let p = first_of(&t, ':', ':');
    proof {
        lemma_first_unique(t@, p as int, 2);
    }
    let mut out: Vec<(Vec<char>, Shade)> = Vec::new();
    out.push((indent, Shade::Plain));
    let key = trim_text(&slice_text(&t, 0, p));
    proof {
        assert(t@.subrange(0, p as int) =~= t@.take(p as int));
    }
    if p < t.len() && key.len() > 0 && key[0] == '"' && key[key.len() - 1] == '"' {
        out.push((key, Shade::Key));
        let mut sep = Vec::new();
        sep.push(':');
        sep.push(' ');
        proof {
            assert(sep@ =~= seq![':', ' ']);
        }
        out.push((sep, Shade::Separator));
        let rest = trim_text(&slice_text(&t, p + 1, t.len()));
        proof {
            assert(t@.subrange(p + 1, t@.len() as int) =~= t@.skip(p + 1));
        }
        out.push(colorize_value(&rest));
    } else {
        out.push(colorize_value(&t));
    }
    out
}

/// The columns of a line that a selection covers, from and to (both
/// included), when the selection reaches that line.
pub open spec fn selected_columns(
    line_idx: usize,
    sel: Option<((usize, usize), (usize, usize))>,
) -> Option<(usize, usize)> {
    match sel {
        None => None,
        Some((start, end)) => if line_idx < start.0 || line_idx > end.0 {
            None
        } else {
            Some(
                (
                    if line_idx == start.0 {
                        start.1
                    } else {
                        0
                    },
                    if line_idx == end.0 {
                        end.1
                    } else {
                        usize::MAX
                    },
                ),
            )
        },
    }
}

pub open spec fn min_i(a: int, b: int) -> int {
    if a <= b {
        a
    } else {
        b
    }
}

pub open spec fn max_i(a: int, b: int) -> int {
    if a >= b {
        a
    } else {
        b
    }
}

/// A piece of a line starting at column `pos`, split where the selected
/// columns `cs` to `ce` begin and end; the selected part is marked.
pub open spec fn split_piece(t: Seq<char>, shade: Shade, pos: int, cs: int, ce: int) -> Seq<
    (Seq<char>, Shade, bool),
> {
    let len = t.len() as int;
    if pos + len <= cs || pos > ce {
        seq![(t, shade, false)]
    } else {
        let ls = min_i(max_i(cs - pos, 0), len);
        let le = min_i(max_i(min_i(ce + 1, usize::MAX as int) - pos, 0), len);
        (if ls > 0 {
            seq![(t.take(ls), shade, false)]
        } else {
            Seq::empty()
        }) + (if le > ls {
            seq![(t.subrange(ls, le), shade, true)]
        } else {
            Seq::empty()
        }) + (if le < len {
            seq![(t.skip(le), shade, false)]
        } else {
            Seq::empty()
        })
    }
}

/// The total length of the pieces.
pub open spec fn pieces_len(p: Seq<(Seq<char>, Shade)>) -> int
    decreases p.len(),
{
    if p.len() == 0 {
        0
    } else {
        pieces_len(p.drop_last()) + p.last().0.len()
    }
}

/// The first `n` pieces of a line, split at the selected columns.
pub open spec fn highlight_upto(p: Seq<(Seq<char>, Shade)>, n: nat, cs: int, ce: int) -> Seq<
    (Seq<char>, Shade, bool),
>
    decreases n,
{
    if n == 0 || n > p.len() {
        Seq::empty()
    } else {
        highlight_upto(p, (n - 1) as nat, cs, ce) + split_piece(
            p[n - 1].0,
            p[n - 1].1,
            pieces_len(p.take(n - 1)),
            cs,
            ce,
        )
    }
}

/// The pieces of line `line_idx` with the selected characters marked
/// (none when the selection does not reach the line).
pub open spec fn highlight_of(
    p: Seq<(Seq<char>, Shade)>,
    line_idx: usize,
    sel: Option<((usize, usize), (usize, usize))>,
) -> Seq<(Seq<char>, Shade, bool)> {
    match selected_columns(line_idx, sel) {
        None => p.map_values(|x: (Seq<char>, Shade)| (x.0, x.1, false)),
        Some((cs, ce)) => highlight_upto(p, p.len(), cs as int, ce as int),
    }
}

fn min_u128(a: u128, b: u128) -> (r: u128)
    ensures
        r == min_i(a as int, b as int),
{
    if a <= b {
        a
    } else {
        b
    }
}

/// One piece split at the selected columns, appended to `out`.
fn push_split(out: &mut Vec<(Vec<char>, Shade, bool)>, t: &Vec<char>, shade: Shade, pos: u128, cs: usize, ce: usize)
    requires
        pos + t@.len() <= u128::MAX,
    ensures
        final(out)@.len() == old(out)@.len() + split_piece(t@, shade, pos as int, cs as int, ce as int).len(),
        forall|i: int| 0 <= i < old(out)@.len() ==> #[trigger] final(out)@[i] == old(out)@[i],
        forall|i: int|
            0 <= i < split_piece(t@, shade, pos as int, cs as int, ce as int).len() ==> (
            #[trigger] final(out)@[old(out)@.len() + i].0@,
            final(out)@[old(out)@.len() + i].1,
            final(out)@[old(out)@.len() + i].2,
        ) == split_piece(t@, shade, pos as int, cs as int, ce as int)[i],
{
    let len = t.len() as u128;
    if pos + len <= cs as u128 || pos > ce as u128 {
        out.push((copy_text(t), shade, false));
    } else {
        let from_start: u128 = if cs as u128 > pos {
            cs as u128 - pos
        } else {
            0
        };
        let ls = min_u128(from_start, len);
        let stop: u128 = if ce < usize::MAX {
            ce as u128 + 1
        } else {
            ce as u128
        };
        let from_end: u128 = if stop > pos {
            stop - pos
        } else {
            0
        };
        let le = min_u128(from_end, len);
        let ls = ls as usize;
        let le = le as usize;
        if ls > 0 {
            out.push((slice_text(t, 0, ls), shade, false));
        }
        if le > ls {
            out.push((slice_text(t, ls, le), shade, true));
        }
        if le < t.len() {
            out.push((slice_text(t, le, t.len()), shade, false));
        }
        proof {
            assert(t@.subrange(0, ls as int) =~= t@.take(ls as int));
            assert(t@.subrange(le as int, t@.len() as int) =~= t@.skip(le as int));
        }
    }
}

/// Mark the selected characters of line `line_idx` among its coloured
/// pieces.
pub fn apply_selection_highlight(
    pieces: &Vec<(Vec<char>, Shade)>,
    line_idx: usize,
    sel: Option<((usize, usize), (usize, usize))>,
) -> (r: Vec<(Vec<char>, Shade, bool)>)
    ensures
        ({
            let pv = pieces@.map_values(|x: (Vec<char>, Shade)| (x.0@, x.1));
            &&& r@.len() == highlight_of(pv, line_idx, sel).len()
            &&& forall|i: int|
                0 <= i < r@.len() ==> (#[trigger] r@[i].0@, r@[i].1, r@[i].2) == highlight_of(
                    pv,
                    line_idx,
                    sel,
                )[i]
        }),
{
    let ghost pv = pieces@.map_values(|x: (Vec<char>, Shade)| (x.0@, x.1));
    let mut out: Vec<(Vec<char>, Shade, bool)> = Vec::new();
    let range: Option<(usize, usize)> = match sel {
        None => None,
        Some((start, end)) => if line_idx < start.0 || line_idx > end.0 {
            None
        } else {
            Some(
                (
                    if line_idx == start.0 {
                        start.1
                    } else {
                        0
                    },
                    if line_idx == end.0 {
                        end.1
                    } else {
                        usize::MAX
                    },
                ),
            )
        },
    };
    match range {
        None => {
            let mut i: usize = 0;
            while i < pieces.len()
                invariant
                    i <= pieces.len(),
                    pv == pieces@.map_values(|x: (Vec<char>, Shade)| (x.0@, x.1)),
                    out@.len() == i,
                    forall|j: int|
                        0 <= j < i ==> (#[trigger] out@[j].0@, out@[j].1, out@[j].2) == (
                        pv[j].0,
                        pv[j].1,
                        false,
                    ),
                decreases pieces.len() - i,
            {
                out.push((copy_text(&pieces[i].0), pieces[i].1, false));
                i = i + 1;
            }
        },
        Some((cs, ce)) => {
            let mut i: usize = 0;
            let mut pos: u128 = 0;
            while i < pieces.len()
                invariant
                    i <= pieces.len(),
                    pv == pieces@.map_values(|x: (Vec<char>, Shade)| (x.0@, x.1)),
                    pos == pieces_len(pv.take(i as int)),
                    pos <= i * 0x1_0000_0000_0000_0000,
                    out@.len() == highlight_upto(pv, i as nat, cs as int, ce as int).len(),
                    forall|j: int|
                        0 <= j < out@.len() ==> (#[trigger] out@[j].0@, out@[j].1, out@[j].2)
                            == highlight_upto(pv, i as nat, cs as int, ce as int)[j],
                decreases pieces.len() - i,
            {
                let ghost before = out@;
                let ghost prev = highlight_upto(pv, i as nat, cs as int, ce as int);
                let len = pieces[i].0.len() as u128;
                proof {
                    assert(pos + len <= (i + 1) * 0x1_0000_0000_0000_0000 - 1) by (nonlinear_arith)
                        requires
                            pos <= i * 0x1_0000_0000_0000_0000,
                            len < 0x1_0000_0000_0000_0000,
                    ;
                    assert((i + 1) * 0x1_0000_0000_0000_0000 <= 0x1_0000_0000_0000_0000 * 0x1_0000_0000_0000_0000) by (nonlinear_arith)
                        requires
                            i + 1 <= 0x1_0000_0000_0000_0000,
                    ;
                }
                push_split(&mut out, &pieces[i].0, pieces[i].1, pos, cs, ce);
                proof {
                    let piece = split_piece(pv[i as int].0, pv[i as int].1, pos as int, cs as int, ce as int);
                    assert(pv.take(i as int) =~= pv.take(i + 1).drop_last());
                    assert(highlight_upto(pv, (i + 1) as nat, cs as int, ce as int) == prev + piece);
                    assert forall|j: int| 0 <= j < out@.len() implies (#[trigger] out@[j].0@, out@[j].1, out@[j].2)
                        == highlight_upto(pv, (i + 1) as nat, cs as int, ce as int)[j] by {
                        if j >= before.len() {
                            assert(out@[before.len() + (j - before.len())] == out@[j]);
                        }
                    }
                }
                pos = pos + len;
                i = i + 1;
            }
            proof {
                assert(pv.len() == pieces@.len());
            }
        },
    }
    out
}

} // verus!
