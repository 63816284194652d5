//! The text selected in the response body, and what copying it reports.
use vstd::prelude::*;
use crate::app::{App, AppView};
use crate::models::pretty_body_of;
use crate::text::{append, append_str, chars_of, decimal, decimal_text, lines_exec, lines_of, str_then};

verus! {

/// The smaller of two integers.
pub open spec fn min_int(a: int, b: int) -> int {
    if a <= b {
        a
    } else {
        b
    }
}

/// Line `i` of `lines`, or the empty line past the end.
pub open spec fn line_or_empty(lines: Seq<Seq<char>>, i: int) -> Seq<char> {
    if 0 <= i < lines.len() {
        lines[i]
    } else {
        Seq::empty()
    }
}

/// What line `i` contributes to a selection from `s` to `e` over several
/// lines: the first line from the start column on, the last line up to and
/// including the end column, every line but the last followed by a newline.
pub open spec fn selection_piece(lines: Seq<Seq<char>>, s: (usize, usize), e: (usize, usize), i: int) -> Seq<
    char,
> {
    let line = line_or_empty(lines, i);
    if i == s.0 {
        line.skip(min_int(s.1 as int, line.len() as int)) + seq!['\n']
    } else if i == e.0 {
        line.take(min_int(e.1 + 1, line.len() as int))
    } else {
        line + seq!['\n']
    }
}

/// The pieces of the first `n` lines of a selection, from its first line on.
pub open spec fn selection_pieces(lines: Seq<Seq<char>>, s: (usize, usize), e: (usize, usize), n: nat) -> Seq<
    char,
>
    decreases n,
{
    if n == 0 {
        Seq::empty()
    } else {
        selection_pieces(lines, s, e, (n - 1) as nat) + selection_piece(lines, s, e, s.0 + n - 1)
    }
}

/// The text selected from `s` to `e` (in reading order) in `lines`: on one
/// line the characters from the start column up to and including the end
/// column (`None` when that is nothing or the line does not exist); over
/// several lines the pieces of every line from the first to the last.
pub open spec fn selection_text(lines: Seq<Seq<char>>, s: (usize, usize), e: (usize, usize)) -> Option<
    Seq<char>,
> {
    if s.0 == e.0 {
        if s.0 >= lines.len() {
            None
        } else {
            let line = lines[s.0 as int];
            let a = min_int(s.1 as int, line.len() as int);
            let b = min_int(e.1 + 1, line.len() as int);
            if a >= b {
                None
            } else {
                Some(line.subrange(a, b))
            }
        }
    } else {
        Some(selection_pieces(lines, s, e, (e.0 - s.0 + 1) as nat))
    }
}

impl AppView {
    /// The selected text of the response body as shown (pretty-printed when
    /// it is JSON), if there is a selection and a response.
    pub open spec fn selected_text(self) -> Option<Seq<char>> {
        match self.normalized_selection() {
            None => None,
            Some((s, e)) => match self.response {
                None => None,
                Some(resp) => selection_text(lines_of(pretty_body_of(resp.body)), s, e),
            },
        }
    }
}

/// The number of bytes a character takes in UTF-8.
pub open spec fn utf8_width(c: char) -> nat {
    if (c as u32) < 0x80 {
        1
    } else if (c as u32) < 0x800 {
        2
    } else if (c as u32) < 0x10000 {
        3
    } else {
        4
    }
}

/// The number of bytes a text takes in UTF-8.
pub open spec fn utf8_len(t: Seq<char>) -> nat
    decreases t.len(),
{
    if t.len() == 0 {
        0
    } else {
        utf8_len(t.drop_last()) + utf8_width(t.last())
    }
}

/// What copying a selection reports: nothing selected, the number of bytes
/// copied, or the clipboard's error.
pub open spec fn copy_report_of(selection: Option<Seq<char>>, clipboard_error: Option<Seq<char>>) -> Seq<
    char,
> {
    match selection {
        None => "No text selected"@,
        Some(t) => match clipboard_error {
            None => "Copied "@ + decimal(utf8_len(t)) + " chars"@,
            Some(e) => "Clipboard error: "@ + e,
        },
    }
}

fn utf8_width_exec(c: char) -> (r: u128)
    ensures
        r == utf8_width(c),
{
    let u = c as u32;
    if u < 0x80 {
        1
    } else if u < 0x800 {
        2
    } else if u < 0x10000 {
        3
    } else {
        4
    }
}

/// The number of bytes a text takes in UTF-8.
pub fn utf8_length(t: &Vec<char>) -> (r: u128)
    ensures
        r == utf8_len(t@),
{
    let mut n: u128 = 0;
    let mut i: usize = 0;
    while i < t.len()
        invariant
            i <= t.len(),
            n == utf8_len(t@.take(i as int)),
            n <= 4 * i,
        decreases t.len() - i,
    {
        proof {
            assert(t@.take(i + 1).drop_last() =~= t@.take(i as int));
        }
        n = n + utf8_width_exec(t[i]);
        i = i + 1;
    }
    proof {
        assert(t@.take(i as int) =~= t@);
    }
    n
}

/// The report of copying `selection` to the clipboard, which failed with
/// `clipboard_error` when that is given.
pub fn copy_report(selection: &Option<Vec<char>>, clipboard_error: &Option<Vec<char>>) -> (r: Vec<
    char,
>)
    ensures
        r@ == copy_report_of(
            match selection {
                Some(t) => Some(t@),
                None => None,
            },
            match clipboard_error {
                Some(e) => Some(e@),
                None => None,
            },
        ),
{
    match selection {
        None => chars_of("No text selected"),
        Some(t) => match clipboard_error {
            None => {
                let mut msg = chars_of("Copied ");
                append(&mut msg, &decimal_text(utf8_length(t)));
                append_str(&mut msg, " chars");
                msg
            },
            Some(e) => str_then("Clipboard error: ", e),
        },
    }
}

/// The characters of `line` from `a` up to `b`, clamped to the line.
fn clamped_slice(line: &Vec<char>, a: usize, b: usize) -> (r: Vec<char>)
    requires
        a <= b,
        b <= line.len(),
    ensures
        r@ == line@.subrange(a as int, b as int),
{
    crate::text::slice_text(line, a, b)
}

fn min_usize(a: usize, b: usize) -> (r: usize)
    ensures
        r == min_int(a as int, b as int),
{
    if a <= b {
        a
    } else {
        b
    }
}

/// One past `x`, but no more than `cap`.
fn succ_capped(x: usize, cap: usize) -> (r: usize)
    ensures
        r == min_int(x + 1, cap as int),
{
    if x < cap {
        x + 1
    } else {
        cap
    }
}

/// The text selected from `s` to `e` in `lines`.
pub fn select_lines(lines: &Vec<Vec<char>>, s: (usize, usize), e: (usize, usize)) -> (r: Option<
    Vec<char>,
>)
    requires
        s.0 <= e.0,
    ensures
        match r {
            Some(t) => selection_text(lines@.map_values(|l: Vec<char>| l@), s, e) == Some(t@),
            None => selection_text(lines@.map_values(|l: Vec<char>| l@), s, e) is None,
        },
{
    let ghost lv = lines@.map_values(|l: Vec<char>| l@);
    if s.0 == e.0 {
        if s.0 >= lines.len() {
            return None;
        }
        let line = &lines[s.0];
        let a = min_usize(s.1, line.len());
        let b = succ_capped(e.1, line.len());
        if a >= b {
            return None;
        }
        return Some(clamped_slice(line, a, b));
    }
    let mut out: Vec<char> = Vec::new();
    let mut i: usize = s.0;
    let empty: Vec<char> = Vec::new();
    loop
        invariant_except_break
            s.0 <= i <= e.0,
            out@ == selection_pieces(lv, s, e, (i - s.0) as nat),
        invariant
            s.0 < e.0,
            lv == lines@.map_values(|l: Vec<char>| l@),
            empty@.len() == 0,
        ensures
            out@ == selection_pieces(lv, s, e, (e.0 - s.0 + 1) as nat),
        decreases e.0 - i,
    {
        let line: &Vec<char> = if i < lines.len() {
            &lines[i]
        } else {
            &empty
        };
        proof {
            assert(line@ == line_or_empty(lv, i as int));
        }
        if i == s.0 {
            let a = min_usize(s.1, line.len());
            append(&mut out, &clamped_slice(line, a, line.len()));
            out.push('\n');
            proof {
                assert(line@.subrange(a as int, line@.len() as int) =~= line@.skip(a as int));
            }
        } else if i == e.0 {
            let b = succ_capped(e.1, line.len());
            append(&mut out, &clamped_slice(line, 0, b));
            proof {
                assert(line@.subrange(0, b as int) =~= line@.take(b as int));
            }
        } else {
            append(&mut out, line);
            out.push('\n');
        }
        proof {
            assert(out@ =~= selection_pieces(lv, s, e, (i + 1 - s.0) as nat));
        }
        if i == e.0 {
            break;
        }
        i = i + 1;
    }
    Some(out)
}

impl App {
    /// The selected text of the response body as shown, if there is a
    /// selection and a response.
    pub fn selected_response_text(&self) -> (r: Option<Vec<char>>)
        ensures
            match r {
                Some(t) => self@.selected_text() == Some(t@),
                None => self@.selected_text() is None,
            },
    {
        let (s, e) = match self.normalized_response_selection() {
            None => {
                return None;
            },
            Some(p) => p,
        };
        let body = match &self.response {
            None => {
                return None;
            },
            Some(resp) => resp.pretty_body(),
        };
        let lines = lines_exec(&body);
        proof {
            assert(lines@.map_values(|l: Vec<char>| l@) =~= lines_of(body@));
        }
        select_lines(&lines, s, e)
    }
}

} // verus!
