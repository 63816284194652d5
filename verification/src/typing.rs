//! Editing text fields with a cursor: the request name, URL, header cells
//! and body.
use vstd::prelude::*;
use crate::app::{App, AppView, HeaderRow, header_rows_view, lemma_header_rows_view};
use crate::keys::{CONTROL, KeyCode, KeyInput, char_with, is_char_with, typed, typed_char};
use crate::models::RequestView;

verus! {

/// The cursor, moved back onto the text when it lies past its end.
pub open spec fn clamp(cur: usize, len: nat) -> usize {
    if cur > len {
        len as usize
    } else {
        cur
    }
}

/// One key applied to a single-line text with its cursor (the cursor is
/// first brought back onto the text): a typed character is inserted at the
/// cursor, Backspace and Delete remove the character before or at the
/// cursor, the arrows move it by one, Home and End to either end.
#[verifier::opaque]
pub open spec fn line_edit(t: Seq<char>, cur: usize, k: KeyInput) -> (Seq<char>, usize) {
    let c = clamp(cur, t.len());
    match typed(k) {
        Some(ch) => (t.insert(c as int, ch), (c + 1) as usize),
        None => match k.code {
            KeyCode::Backspace => if c > 0 {
                (t.remove(c - 1), (c - 1) as usize)
            } else {
                (t, c)
            },
            KeyCode::Delete => if c < t.len() {
                (t.remove(c as int), c)
            } else {
                (t, c)
            },
            KeyCode::Left => if c > 0 {
                (t, (c - 1) as usize)
            } else {
                (t, c)
            },
            KeyCode::Right => if c < t.len() {
                (t, (c + 1) as usize)
            } else {
                (t, c)
            },
            KeyCode::Home => (t, 0),
            KeyCode::End => (t, t.len() as usize),
            _ => (t, c),
        },
    }
}

/// Whether a key is handled by `line_edit`.
pub open spec fn is_line_key(k: KeyInput) -> bool {
    ||| typed(k) is Some
    ||| k.code == KeyCode::Backspace
    ||| k.code == KeyCode::Delete
    ||| k.code == KeyCode::Left
    ||| k.code == KeyCode::Right
    ||| k.code == KeyCode::Home
    ||| k.code == KeyCode::End
}

/// Apply one key to a single-line text and its cursor.
pub fn line_edit_exec(t: &mut Vec<char>, cur: &mut usize, k: KeyInput)
    ensures
        (final(t)@, *final(cur)) == line_edit(old(t)@, *old(cur), k),
{
    reveal(line_edit);
    if *cur > t.len() {
        *cur = t.len();
    }
    match typed_char(k) {
        Some(ch) => {
            t.insert(*cur, ch);
            let n = t.len();
            assert(*cur < n);
            *cur = *cur + 1;
        },
        None => match k.code {
            KeyCode::Backspace => {
                if *cur > 0 {
                    *cur = *cur - 1;
                    t.remove(*cur);
                }
            },
            KeyCode::Delete => {
                if *cur < t.len() {
                    t.remove(*cur);
                }
            },
            KeyCode::Left => {
                if *cur > 0 {
                    *cur = *cur - 1;
                }
            },
            KeyCode::Right => {
                if *cur < t.len() {
                    *cur = *cur + 1;
                }
            },
            KeyCode::Home => {
                *cur = 0;
            },
            KeyCode::End => {
                *cur = t.len();
            },
            _ => {},
        },
    }
}

/// Whether a character belongs to the run that Ctrl+W deletes in the URL:
/// a space in the first pass, anything but a space in the second.
pub open spec fn in_run(c: char, spaces: bool) -> bool {
    if spaces {
        c == ' '
    } else {
        c != ' '
    }
}

/// The number of characters right before `end` that are in the run,
/// counting backwards until one is not.
pub open spec fn run_back(t: Seq<char>, end: int, spaces: bool) -> nat
    decreases end,
{
    if end <= 0 || end > t.len() || !in_run(t[end - 1], spaces) {
        0
    } else {
        1 + run_back(t, end - 1, spaces)
    }
}

/// The text with the `n` characters before `end` removed.
pub open spec fn cut_back(t: Seq<char>, end: int, n: int) -> Seq<char> {
    t.take(end - n) + t.skip(end)
}

/// Ctrl+W in the URL: delete the spaces right before the cursor, then the
/// word before them.
pub open spec fn delete_word_url(t: Seq<char>, c: usize) -> (Seq<char>, usize) {
    let s = run_back(t, c as int, true);
    let w = run_back(t, c - s, false);
    (cut_back(t, c as int, (s + w) as int), (c - s - w) as usize)
}

proof fn lemma_run_back_bound(t: Seq<char>, end: int, spaces: bool)
    ensures
        end >= 0 ==> run_back(t, end, spaces) <= end,
    decreases end,
{
    if end > 0 && end <= t.len() && in_run(t[end - 1], spaces) {
        lemma_run_back_bound(t, end - 1, spaces);
    }
}

/// `run_back` looks only at the characters before `end`.
proof fn lemma_run_back_prefix(a: Seq<char>, b: Seq<char>, end: int, spaces: bool)
    requires
        0 <= end <= a.len(),
        end <= b.len(),
        forall|j: int| 0 <= j < end ==> b[j] == a[j],
    ensures
        run_back(b, end, spaces) == run_back(a, end, spaces),
    decreases end,
{
    if end > 0 {
        lemma_run_back_prefix(a, b, end - 1, spaces);
    }
}

/// Delete the characters of the run right before the cursor; the result
/// is the number deleted.
fn delete_back_while(t: &mut Vec<char>, cur: &mut usize, spaces: bool) -> (n: Ghost<nat>)
    requires
        *old(cur) <= old(t)@.len(),
    ensures
        n@ == run_back(old(t)@, *old(cur) as int, spaces),
        *final(cur) == *old(cur) - n@,
        final(t)@ == cut_back(old(t)@, *old(cur) as int, n@ as int),
{
    let ghost t0 = t@;
    let ghost c0 = *cur;
    proof {
        lemma_run_back_bound(t0, c0 as int, spaces);
        assert(cut_back(t0, c0 as int, 0) =~= t0);
    }
    loop
        invariant_except_break
            *cur <= c0,
            t@ == cut_back(t0, c0 as int, c0 - *cur),
            run_back(t0, c0 as int, spaces) == (c0 - *cur) + run_back(t0, *cur as int, spaces),
        invariant
            c0 <= t0.len(),
        ensures
            *cur <= c0,
            t@ == cut_back(t0, c0 as int, c0 - *cur),
            run_back(t0, c0 as int, spaces) == c0 - *cur,
        decreases *cur,
    {
        if *cur == 0 {
            break;
        }
        let ch = t[*cur - 1];
        proof {
            assert(t@[*cur - 1] == t0[*cur - 1]);
        }
        let hit = if spaces {
            ch == ' '
        } else {
            ch != ' '
        };
        if !hit {
            break;
        }
        *cur = *cur - 1;
        t.remove(*cur);
        proof {
            assert(t@ =~= cut_back(t0, c0 as int, c0 - *cur));
        }
    }
    Ghost((c0 - *cur) as nat)
}

/// Apply Ctrl+W to the URL and its cursor.
fn delete_word_url_exec(t: &mut Vec<char>, cur: &mut usize)
    requires
        *old(cur) <= old(t)@.len(),
    ensures
        (final(t)@, *final(cur)) == delete_word_url(old(t)@, *old(cur)),
{
    let ghost t0 = t@;
    let ghost c0 = *cur;
    let s = delete_back_while(t, cur, true);
    let ghost t1 = t@;
    let w = delete_back_while(t, cur, false);
    proof {
        assert forall|j: int| 0 <= j < c0 - s@ implies t1[j] == t0[j] by {}
        lemma_run_back_prefix(t0, t1, (c0 - s@) as int, false);
        assert(t@ =~= cut_back(t0, c0 as int, (s@ + w@) as int));
    }
}

/// A key while editing the URL, on the URL, its cursor and whether editing
/// goes on: Ctrl+W deletes the word before the cursor, Ctrl+U clears the
/// URL, Tab ends editing, other keys edit as in any single-line field.
#[verifier::opaque]
pub open spec fn url_edit(t: Seq<char>, cur: usize, k: KeyInput) -> (Seq<char>, usize, bool) {
    let c = clamp(cur, t.len());
    if is_line_key(k) {
        let (t2, c2) = line_edit(t, cur, k);
        (t2, c2, true)
    } else if is_char_with(k, 'w', CONTROL) {
        let (t2, c2) = delete_word_url(t, c);
        (t2, c2, true)
    } else if is_char_with(k, 'u', CONTROL) {
        (Seq::empty(), 0, true)
    } else {
        (t, c, k.code != KeyCode::Tab)
    }
}

/// Apply a key to the URL while editing it; the result tells whether
/// editing goes on.
pub fn url_edit_exec(t: &mut Vec<char>, cur: &mut usize, k: KeyInput) -> (go_on: bool)
    ensures
        (final(t)@, *final(cur), go_on) == url_edit(old(t)@, *old(cur), k),
{
    reveal(url_edit);
    if typed_char(k).is_some() || k.code == KeyCode::Backspace || k.code == KeyCode::Delete
        || k.code == KeyCode::Left || k.code == KeyCode::Right || k.code == KeyCode::Home
        || k.code == KeyCode::End {
        line_edit_exec(t, cur, k);
        return true;
    }
    if *cur > t.len() {
        *cur = t.len();
    }
    if char_with(k, 'w', CONTROL) {
        delete_word_url_exec(t, cur);
        true
    } else if char_with(k, 'u', CONTROL) {
        t.clear();
        *cur = 0;
        true
    } else {
        k.code != KeyCode::Tab
    }
}

/// Whether a key edits a request field (name or header cell): a
/// single-line key, Ctrl+W or Ctrl+U.
pub open spec fn is_field_key(k: KeyInput) -> bool {
    is_line_key(k) || is_char_with(k, 'w', CONTROL) || is_char_with(k, 'u', CONTROL)
}

/// One key applied to a request field (the name or a header cell) and its
/// cursor: single-line keys as in `line_edit`, Ctrl+W deletes the word
/// before the cursor (with the spaces right before it, as in the URL),
/// Ctrl+U clears the field; other keys leave it, with the cursor brought
/// back onto the text.
#[verifier::opaque]
pub open spec fn field_edit(t: Seq<char>, cur: usize, k: KeyInput) -> (Seq<char>, usize) {
    let c = clamp(cur, t.len());
    if is_line_key(k) {
        line_edit(t, cur, k)
    } else if is_char_with(k, 'w', CONTROL) {
        delete_word_url(t, c)
    } else if is_char_with(k, 'u', CONTROL) {
        (Seq::empty(), 0)
    } else {
        (t, c)
    }
}

/// Apply one key to a request field and its cursor.
pub fn field_edit_exec(t: &mut Vec<char>, cur: &mut usize, k: KeyInput)
    ensures
        (final(t)@, *final(cur)) == field_edit(old(t)@, *old(cur), k),
{
    reveal(field_edit);
    if typed_char(k).is_some() || k.code == KeyCode::Backspace || k.code == KeyCode::Delete
        || k.code == KeyCode::Left || k.code == KeyCode::Right || k.code == KeyCode::Home
        || k.code == KeyCode::End {
        line_edit_exec(t, cur, k);
        return;
    }
    if *cur > t.len() {
        *cur = t.len();
    }
    if char_with(k, 'w', CONTROL) {
        delete_word_url_exec(t, cur);
    } else if char_with(k, 'u', CONTROL) {
        t.clear();
        *cur = 0;
    }
}

/// The index of the last newline before `i`, or -1 when there is none.
pub open spec fn last_nl(t: Seq<char>, i: int) -> int
    decreases i,
{
    if i <= 0 || i > t.len() {
        -1
    } else if t[i - 1] == '\n' {
        i - 1
    } else {
        last_nl(t, i - 1)
    }
}

/// The start of the line that position `i` is on.
pub open spec fn line_start(t: Seq<char>, i: int) -> int {
    last_nl(t, i) + 1
}

/// The index of the first newline at or after `i`, or the length of the
/// text when there is none.
pub open spec fn next_nl(t: Seq<char>, i: int) -> int
    decreases t.len() - i,
{
    if i < 0 || i >= t.len() {
        t.len() as int
    } else if t[i] == '\n' {
        i
    } else {
        next_nl(t, i + 1)
    }
}

/// The number of characters right before `end` that are neither spaces
/// nor newlines.
pub open spec fn word_back(t: Seq<char>, end: int) -> nat
    decreases end,
{
    if end <= 0 || end > t.len() || t[end - 1] == ' ' || t[end - 1] == '\n' {
        0
    } else {
        1 + word_back(t, end - 1)
    }
}

pub open spec fn min_of(a: int, b: int) -> int {
    if a <= b {
        a
    } else {
        b
    }
}

/// One key applied to the body and its cursor (the cursor is first brought
/// back onto the text): typed characters and Enter insert, Backspace and
/// Delete remove, Left and Right move by one, Home and End go to the ends
/// of the line, Up and Down go to the same column (or the end) of the line
/// above or below, Ctrl+U clears and Ctrl+W deletes the word before the
/// cursor.
#[verifier::opaque]
pub open spec fn body_edit(t: Seq<char>, cur: usize, k: KeyInput) -> (Seq<char>, usize) {
    let c = clamp(cur, t.len());
    match typed(k) {
        Some(ch) => (t.insert(c as int, ch), (c + 1) as usize),
        None => match k.code {
            KeyCode::Enter => (t.insert(c as int, '\n'), (c + 1) as usize),
            KeyCode::Backspace => if c > 0 {
                (t.remove(c - 1), (c - 1) as usize)
            } else {
                (t, c)
            },
            KeyCode::Delete => if c < t.len() {
                (t.remove(c as int), c)
            } else {
                (t, c)
            },
            KeyCode::Left => if c > 0 {
                (t, (c - 1) as usize)
            } else {
                (t, c)
            },
            KeyCode::Right => if c < t.len() {
                (t, (c + 1) as usize)
            } else {
                (t, c)
            },
            KeyCode::Home => (t, line_start(t, c as int) as usize),
            KeyCode::End => (t, next_nl(t, c as int) as usize),
            KeyCode::Up => {
                let ls = line_start(t, c as int);
                if ls > 0 {
                    let pls = line_start(t, ls - 1);
                    (t, (pls + min_of(c - ls, ls - 1 - pls)) as usize)
                } else {
                    (t, c)
                }
            },
            KeyCode::Down => {
                let ls = line_start(t, c as int);
                let nn = next_nl(t, c as int);
                if nn < t.len() {
                    let nls = nn + 1;
                    (t, (nls + min_of(c - ls, next_nl(t, nls) - nls)) as usize)
                } else {
                    (t, c)
                }
            },
            _ => if is_char_with(k, 'u', CONTROL) {
                (Seq::empty(), 0)
            } else if is_char_with(k, 'w', CONTROL) {
                let n = word_back(t, c as int);
                (cut_back(t, c as int, n as int), (c - n) as usize)
            } else {
                (t, c)
            },
        },
    }
}

proof fn lemma_last_nl(t: Seq<char>, i: int)
    requires
        0 <= i <= t.len(),
    ensures
        -1 <= last_nl(t, i) < i,
        last_nl(t, i) >= 0 ==> t[last_nl(t, i)] == '\n',
    decreases i,
{
    if i > 0 && t[i - 1] != '\n' {
        lemma_last_nl(t, i - 1);
    }
}

proof fn lemma_next_nl(t: Seq<char>, i: int)
    requires
        0 <= i <= t.len(),
    ensures
        i <= next_nl(t, i) <= t.len(),
    decreases t.len() - i,
{
    if i < t.len() && t[i] != '\n' {
        lemma_next_nl(t, i + 1);
    }
}

/// The start of the line that position `i` is on.
fn line_start_exec(t: &Vec<char>, i: usize) -> (r: usize)
    requires
        i <= t.len(),
    ensures
        r == line_start(t@, i as int),
        r <= i,
{
    let mut j: usize = i;
    while j > 0 && t[j - 1] != '\n'
        invariant
            j <= i <= t.len(),
            last_nl(t@, j as int) == last_nl(t@, i as int),
        decreases j,
    {
        j = j - 1;
    }
    j
}

/// The first newline at or after `i`, or the length of the text.
fn next_nl_exec(t: &Vec<char>, i: usize) -> (r: usize)
    requires
        i <= t.len(),
    ensures
        r == next_nl(t@, i as int),
        i <= r <= t.len(),
{
    let mut j: usize = i;
    while j < t.len() && t[j] != '\n'
        invariant
            i <= j <= t.len(),
            next_nl(t@, j as int) == next_nl(t@, i as int),
        decreases t.len() - j,
    {
        j = j + 1;
    }
    j
}

fn min_usize(a: usize, b: usize) -> (r: usize)
    ensures
        r == min_of(a as int, b as int),
{
    if a <= b {
        a
    } else {
        b
    }
}

/// Apply one key to the body and its cursor.
pub fn body_edit_exec(t: &mut Vec<char>, cur: &mut usize, k: KeyInput)
    ensures
        (final(t)@, *final(cur)) == body_edit(old(t)@, *old(cur), k),
{
    reveal(body_edit);
    if *cur > t.len() {
        *cur = t.len();
    }
    let c = *cur;
    proof {
        lemma_last_nl(t@, c as int);
        lemma_next_nl(t@, c as int);
    }
    match typed_char(k) {
        Some(ch) => {
            t.insert(c, ch);
            let n = t.len();
            assert(c < n);
            *cur = c + 1;
        },
        None => match k.code {
            KeyCode::Enter => {
                t.insert(c, '\n');
                let n = t.len();
                assert(c < n);
                *cur = c + 1;
            },
            KeyCode::Backspace => {
                if c > 0 {
                    t.remove(c - 1);
                    *cur = c - 1;
                }
            },
            KeyCode::Delete => {
                if c < t.len() {
                    t.remove(c);
                }
            },
            KeyCode::Left => {
                if c > 0 {
                    *cur = c - 1;
                }
            },
            KeyCode::Right => {
                if c < t.len() {
                    *cur = c + 1;
                }
            },
            KeyCode::Home => {
                *cur = line_start_exec(t, c);
            },
            KeyCode::End => {
                *cur = next_nl_exec(t, c);
            },
            KeyCode::Up => {
                let ls = line_start_exec(t, c);
                if ls > 0 {
                    let pls = line_start_exec(t, ls - 1);
                    proof {
                        lemma_last_nl(t@, ls - 1);
                    }
                    *cur = pls + min_usize(c - ls, ls - 1 - pls);
                }
            },
            KeyCode::Down => {
                let ls = line_start_exec(t, c);
                let nn = next_nl_exec(t, c);
                if nn < t.len() {
                    let nls = nn + 1;
                    let nle = next_nl_exec(t, nls);
                    *cur = nls + min_usize(c - ls, nle - nls);
                }
            },
            _ => {
                if char_with(k, 'u', CONTROL) {
                    t.clear();
                    *cur = 0;
                } else if char_with(k, 'w', CONTROL) {
                    let ghost t0 = t@;
                    proof {
                        assert(cut_back(t0, c as int, 0) =~= t0);
                    }
                    while *cur > 0 && t[*cur - 1] != ' ' && t[*cur - 1] != '\n'
                        invariant
                            *cur <= c <= t0.len(),
                            t@ == cut_back(t0, c as int, c - *cur),
                            word_back(t0, c as int) == (c - *cur) + word_back(t0, *cur as int),
                        decreases *cur,
                    {
                        proof {
                            assert(t@[*cur - 1] == t0[*cur - 1]);
                        }
                        *cur = *cur - 1;
                        t.remove(*cur);
                        proof {
                            assert(t@ =~= cut_back(t0, c as int, c - *cur));
                        }
                    }
                    proof {
                        if *cur > 0 {
                            assert(t@[*cur - 1] == t0[*cur - 1]);
                        }
                    }
                }
            },
        },
    }
}

/// A key while editing a header cell, on the header rows, the selected
/// row, whether the key column is edited, the cursor, and whether editing
/// goes on.  With no selected row editing ends.  Tab switches column
/// (cursor at its end), Enter and Down go to the next row (or end editing
/// on the last), Up goes to the row above, other editing keys (Ctrl+W and
/// Ctrl+U among them) edit the cell as in `field_edit`.
#[verifier::opaque]
pub open spec fn header_edit(
    rows: Seq<(Seq<char>, Seq<char>)>,
    sel: usize,
    ek: bool,
    cur: usize,
    k: KeyInput,
) -> (Seq<(Seq<char>, Seq<char>)>, usize, bool, usize, bool) {
    if rows.len() == 0 || sel >= rows.len() {
        (rows, sel, ek, cur, false)
    } else {
        let row = rows[sel as int];
        let field = if ek {
            row.0
        } else {
            row.1
        };
        if k.code == KeyCode::Tab {
            (rows, sel, !ek, if !ek {
                row.0.len() as usize
            } else {
                row.1.len() as usize
            }, true)
        } else if is_field_key(k) {
            let (t, c) = field_edit(field, cur, k);
            (rows.update(sel as int, if ek {
                (t, row.1)
            } else {
                (row.0, t)
            }), sel, ek, c, true)
        } else if k.code == KeyCode::Enter || k.code == KeyCode::Down {
            if sel + 1 < rows.len() {
                (rows, (sel + 1) as usize, true, 0, true)
            } else {
                (rows, sel, ek, cur, false)
            }
        } else if k.code == KeyCode::Up {
            if sel > 0 {
                (rows, (sel - 1) as usize, true, 0, true)
            } else {
                (rows, sel, ek, cur, true)
            }
        } else {
            (rows, sel, ek, cur, true)
        }
    }
}

/// Edit the key or value cell of row `sel` with a key.
fn edit_cell(rows: &mut Vec<HeaderRow>, sel: usize, ek: bool, cur: &mut usize, k: KeyInput)
    requires
        sel < old(rows).len(),
    ensures
        ({
            let row = header_rows_view(old(rows)@)[sel as int];
            let field = if ek {
                row.0
            } else {
                row.1
            };
            let (t, c) = field_edit(field, *old(cur), k);
            &&& header_rows_view(final(rows)@) == header_rows_view(old(rows)@).update(
                sel as int,
                if ek {
                    (t, row.1)
                } else {
                    (row.0, t)
                },
            )
            &&& *final(cur) == c
        }),
{
    let ghost before = rows@;
    let mut row = rows.remove(sel);
    if ek {
        field_edit_exec(&mut row.key, cur, k);
    } else {
        field_edit_exec(&mut row.value, cur, k);
    }
    rows.insert(sel, row);
    proof {
        lemma_header_rows_view(before);
        lemma_header_rows_view(rows@);
        assert(header_rows_view(rows@) =~= header_rows_view(before).update(
            sel as int,
            (row.key@, row.value@),
        ));
    }
}

/// Apply a key to the header rows while editing a cell; the result tells
/// whether editing goes on.
pub fn header_edit_exec(
    rows: &mut Vec<HeaderRow>,
    sel: &mut usize,
    ek: &mut bool,
    cur: &mut usize,
    k: KeyInput,
) -> (go_on: bool)
    ensures
        (header_rows_view(final(rows)@), *final(sel), *final(ek), *final(cur), go_on) == header_edit(
            header_rows_view(old(rows)@),
            *old(sel),
            *old(ek),
            *old(cur),
            k,
        ),
{
    reveal(header_edit);
    proof {
        lemma_header_rows_view(rows@);
    }
    let s = *sel;
    if rows.len() == 0 || s >= rows.len() {
        return false;
    }
    if k.code == KeyCode::Tab {
        *ek = !*ek;
        *cur = if *ek {
            rows[s].key.len()
        } else {
            rows[s].value.len()
        };
        true
    } else if typed_char(k).is_some() || k.code == KeyCode::Backspace || k.code == KeyCode::Delete
        || k.code == KeyCode::Left || k.code == KeyCode::Right || k.code == KeyCode::Home
        || k.code == KeyCode::End || char_with(k, 'w', CONTROL) || char_with(k, 'u', CONTROL) {
        edit_cell(rows, s, *ek, cur, k);
        true
    } else if k.code == KeyCode::Enter || k.code == KeyCode::Down {
        if s + 1 < rows.len() {
            *sel = s + 1;
            *ek = true;
            *cur = 0;
            true
        } else {
            false
        }
    } else if k.code == KeyCode::Up {
        if s > 0 {
            *sel = s - 1;
            *ek = true;
            *cur = 0;
        }
        true
    } else {
        true
    }
}

impl AppView {
    /// A key while editing the request name: Enter ends editing, other keys
    /// edit the name (Ctrl+W deletes a word, Ctrl+U clears it).
    pub open spec fn edit_name_step(self, k: KeyInput) -> AppView {
        if k.code == KeyCode::Enter {
            AppView { editing: false, ..self }
        } else {
            let (t, c) = field_edit(self.current_request.name, self.name_cursor, k);
            AppView {
                current_request: RequestView { name: t, ..self.current_request },
                name_cursor: c,
                ..self
            }
        }
    }

    /// A key while editing the body: the request gets a body (empty when it
    /// had none) and the key edits it.
    pub open spec fn edit_body_step(self, k: KeyInput) -> AppView {
        let body = match self.current_request.body {
            Some(b) => b,
            None => Seq::empty(),
        };
        let (t, c) = body_edit(body, self.body_cursor, k);
        AppView {
            current_request: RequestView { body: Some(t), ..self.current_request },
            body_cursor: c,
            ..self
        }
    }

    /// A key while editing a header cell.
    pub open spec fn edit_header_step(self, k: KeyInput) -> AppView {
        let (rows, sel, ek, cur, go_on) = header_edit(
            self.header_rows,
            self.header_selected,
            self.header_edit_key,
            self.header_cursor,
            k,
        );
        AppView {
            header_rows: rows,
            header_selected: sel,
            header_edit_key: ek,
            header_cursor: cur,
            editing: self.editing && go_on,
            ..self
        }
    }

    /// A key while editing the URL.
    pub open spec fn edit_url_step(self, k: KeyInput) -> AppView {
        let (t, c, go_on) = url_edit(self.current_request.url, self.url_cursor, k);
        AppView {
            current_request: RequestView { url: t, ..self.current_request },
            url_cursor: c,
            editing: self.editing && go_on,
            ..self
        }
    }
}

impl App {
    /// A key while editing the request name.
    pub fn edit_name(&mut self, key: KeyInput)
        ensures
            final(self)@ == old(self)@.edit_name_step(key),
    {
        if key.code == KeyCode::Enter {
            self.editing = false;
            return;
        }
        field_edit_exec(&mut self.current_request.name, &mut self.name_cursor, key);
    }

    /// A key while editing the body.
    pub fn edit_body(&mut self, key: KeyInput)
        ensures
            final(self)@ == old(self)@.edit_body_step(key),
    {
        let mut body = match self.current_request.body.take() {
            Some(b) => b,
            None => Vec::new(),
        };
        body_edit_exec(&mut body, &mut self.body_cursor, key);
        self.current_request.body = Some(body);
    }

    /// A key while editing a header cell.
    pub fn edit_header(&mut self, key: KeyInput)
        ensures
            final(self)@ == old(self)@.edit_header_step(key),
    {
        let go_on = header_edit_exec(
            &mut self.header_rows,
            &mut self.header_selected,
            &mut self.header_edit_key,
            &mut self.header_cursor,
            key,
        );
        if !go_on {
            self.editing = false;
        }
    }

    /// A key while editing the URL.
    pub fn edit_url(&mut self, key: KeyInput)
        ensures
            final(self)@ == old(self)@.edit_url_step(key),
    {
        let go_on = url_edit_exec(&mut self.current_request.url, &mut self.url_cursor, key);
        if !go_on {
            self.editing = false;
        }
    }
}

} // verus!
