//! What the panels show, computed from the state: the text around an
//! editing cursor, the `{{VAR}}` parts of a URL, scroll positions, and the
//! lines of the collections tree.
use vstd::prelude::*;
use crate::app::{TreeItem, TreeItemKind, TreeItemKindView, TreeItemView};
use crate::text::{append, append_str, copy_text, has_prefix, occurs_at, slice_text};

verus! {

/// The text of an edited field split at the cursor (brought back onto the
/// text): the part before it, the character under it (a space at the end),
/// and the rest.
pub open spec fn cursor_parts(t: Seq<char>, cur: usize) -> (Seq<char>, Seq<char>, Seq<char>) {
    let c = if cur > t.len() {
        t.len() as int
    } else {
        cur as int
    };
    if c < t.len() {
        (t.take(c), seq![t[c]], t.skip(c + 1))
    } else {
        (t, seq![' '], Seq::empty())
    }
}

/// Split an edited field at its cursor for display.
pub fn cursor_split(t: &Vec<char>, cur: usize) -> (r: (Vec<char>, Vec<char>, Vec<char>))
    ensures
        (r.0@, r.1@, r.2@) == cursor_parts(t@, cur),
{
    let c = if cur > t.len() {
        t.len()
    } else {
        cur
    };
    if c < t.len() {
        let mut mid = Vec::new();
        mid.push(t[c]);
        let before = slice_text(t, 0, c);
        let after = slice_text(t, c + 1, t.len());
        proof {
            assert(before@ =~= t@.take(c as int));
            assert(after@ =~= t@.skip(c + 1));
            assert(mid@ =~= seq![t@[c as int]]);
        }
        (before, mid, after)
    } else {
        let mut mid = Vec::new();
        mid.push(' ');
        proof {
            assert(mid@ =~= seq![' ']);
        }
        (copy_text(t), mid, Vec::new())
    }
}

/// The first position at or after `from` where `pat` occurs, if any.
pub open spec fn find_from(s: Seq<char>, from: int, pat: Seq<char>) -> Option<int>
    decreases s.len() + 1 - from,
{
    if from < 0 || from + pat.len() > s.len() {
        None
    } else if occurs_at(s, from, pat) {
        Some(from)
    } else {
        find_from(s, from + 1, pat)
    }
}

/// The parts of a URL, in order, each marked when it is a `{{VAR}}`
/// placeholder: from the start, each `{{` that has a `}}` after it opens a
/// placeholder up to and including that `}}`; the text in between is
/// plain.  Empty plain parts are left out.
pub open spec fn url_parts_from(url: Seq<char>, from: int) -> Seq<(Seq<char>, bool)>
    decreases url.len() - from,
{
    if from < 0 || from > url.len() {
        Seq::empty()
    } else {
        match find_from(url, from, seq!['{', '{']) {
            Some(start) => match find_from(url, start, seq!['}', '}']) {
                Some(close) => {
                    let end = close + 2;
                    let plain = if start > from {
                        seq![(url.subrange(from, start), false)]
                    } else {
                        Seq::empty()
                    };
                    if from < end && end <= url.len() {
                        plain + seq![(url.subrange(start, end), true)] + url_parts_from(url, end)
                    } else {
                        Seq::empty()
                    }
                },
                None => if from < url.len() {
                    seq![(url.subrange(from, url.len() as int), false)]
                } else {
                    Seq::empty()
                },
            },
            None => if from < url.len() {
                seq![(url.subrange(from, url.len() as int), false)]
            } else {
                Seq::empty()
            },
        }
    }
}

proof fn lemma_find_from(s: Seq<char>, from: int, pat: Seq<char>)
    ensures
        find_from(s, from, pat) matches Some(i) ==> from <= i && i + pat.len() <= s.len()
            && occurs_at(s, i, pat),
    decreases s.len() + 1 - from,
{
    if from >= 0 && from + pat.len() <= s.len() && !occurs_at(s, from, pat) {
        lemma_find_from(s, from + 1, pat);
    }
}

/// The first position at or after `from` where `pat` occurs.
fn find_from_exec(s: &Vec<char>, from: usize, pat: &Vec<char>) -> (r: Option<usize>)
    requires
        from <= s.len(),
    ensures
        match r {
            Some(i) => find_from(s@, from as int, pat@) == Some(i as int),
            None => find_from(s@, from as int, pat@) is None,
        },
{
    if pat.len() == 0 {
        proof {
            assert(s@.subrange(from as int, from as int) =~= pat@);
        }
        return Some(from);
    }
    let mut i = from;
    while i < s.len() && pat.len() <= s.len() - i
        invariant
            from <= i <= s.len(),
            pat@.len() > 0,
            find_from(s@, i as int, pat@) == find_from(s@, from as int, pat@),
        decreases s.len() - i,
    {
        if crate::text::occurs_at_exec(s, i, pat) {
            return Some(i);
        }
        i = i + 1;
    }
    None
}

/// Split a URL into plain parts and `{{VAR}}` placeholders.
pub fn url_parts(url: &Vec<char>) -> (r: Vec<(Vec<char>, bool)>)
    ensures
        r@.len() == url_parts_from(url@, 0).len(),
        forall|i: int|
            0 <= i < r@.len() ==> (#[trigger] r@[i].0@, r@[i].1) == url_parts_from(url@, 0)[i],
{
    let mut out: Vec<(Vec<char>, bool)> = Vec::new();
    let mut from: usize = 0;
    let open: Vec<char> = vec!['{', '{'];
    let close: Vec<char> = vec!['}', '}'];
    proof {
        assert(open@ =~= seq!['{', '{']);
        assert(close@ =~= seq!['}', '}']);
    }
    loop
        invariant_except_break
            from <= url.len(),
            open@ == seq!['{', '{'],
            close@ == seq!['}', '}'],
            out@.len() + url_parts_from(url@, from as int).len() == url_parts_from(url@, 0).len(),
            forall|i: int|
                0 <= i < out@.len() ==> (#[trigger] out@[i].0@, out@[i].1) == url_parts_from(url@, 0)[i],
            forall|i: int|
                0 <= i < url_parts_from(url@, from as int).len() ==> #[trigger] url_parts_from(
                    url@,
                    from as int,
                )[i] == url_parts_from(url@, 0)[out@.len() + i],
        ensures
            out@.len() == url_parts_from(url@, 0).len(),
            forall|i: int|
                0 <= i < out@.len() ==> (#[trigger] out@[i].0@, out@[i].1) == url_parts_from(url@, 0)[i],
        decreases url.len() - from,
    {
        let ghost rest = url_parts_from(url@, from as int);
        let ghost before = out@;
        let start = find_from_exec(url, from, &open);
        proof {
            lemma_find_from(url@, from as int, open@);
        }
        match start {
            Some(s) => {
                let close_at = find_from_exec(url, s, &close);
                proof {
                    lemma_find_from(url@, s as int, close@);
                }
                match close_at {
                    Some(c) => {
                        let end = c + 2;
                        let ghost plain: Seq<(Seq<char>, bool)> = if s > from {
                            seq![(url@.subrange(from as int, s as int), false)]
                        } else {
                            Seq::empty()
                        };
                        let ghost tail = url_parts_from(url@, end as int);
                        proof {
                            assert(rest == plain + seq![(url@.subrange(s as int, end as int), true)] + tail);
                        }
                        if s > from {
                            out.push((slice_text(url, from, s), false));
                        }
                        out.push((slice_text(url, s, end), true));
                        proof {
                            let k = plain.len() + 1;
                            assert(out@.len() == before.len() + k);
                            assert forall|i: int| 0 <= i < out@.len() implies (#[trigger] out@[i].0@, out@[i].1)
                                == url_parts_from(url@, 0)[i] by {
                                if i >= before.len() {
                                    assert(rest[i - before.len()] == url_parts_from(url@, 0)[before.len() + (i - before.len())]);
                                }
                            }
                            assert forall|i: int| 0 <= i < tail.len() implies #[trigger] tail[i] == url_parts_from(url@, 0)[out@.len() + i] by {
                                assert(rest[k + i] == tail[i]);
                                assert(rest[k + i] == url_parts_from(url@, 0)[before.len() + (k + i)]);
                            }
                        }
                        from = end;
                    },
                    None => {
                        if from < url.len() {
                            out.push((slice_text(url, from, url.len()), false));
                        }
                        proof {
                            assert forall|i: int| 0 <= i < out@.len() implies (#[trigger] out@[i].0@, out@[i].1)
                                == url_parts_from(url@, 0)[i] by {
                                if i >= before.len() {
                                    assert(rest[i - before.len()] == url_parts_from(url@, 0)[before.len() + (i - before.len())]);
                                }
                            }
                        }
                        break;
                    },
                }
            },
            None => {
                if from < url.len() {
                    out.push((slice_text(url, from, url.len()), false));
                }
                proof {
                    assert forall|i: int| 0 <= i < out@.len() implies (#[trigger] out@[i].0@, out@[i].1)
                        == url_parts_from(url@, 0)[i] by {
                        if i >= before.len() {
                            assert(rest[i - before.len()] == url_parts_from(url@, 0)[before.len() + (i - before.len())]);
                        }
                    }
                }
                break;
            },
        }
    }
    out
}

/// The scroll position that keeps `pos` in a view of `size` rows (or
/// columns) starting at `scroll`: when `pos` is past the view, the view
/// ends at `pos`; when it is before, the view starts at it.
pub open spec fn follow(scroll: u16, pos: u16, size: u16) -> u16 {
    if pos >= scroll + size {
        if pos >= size - 1 {
            (pos - (size - 1)) as u16
        } else {
            0
        }
    } else if pos < scroll {
        pos
    } else {
        scroll
    }
}

/// The scroll position that keeps `pos` in view.
pub fn follow_exec(scroll: u16, pos: u16, size: u16) -> (r: u16)
    requires
        size >= 1,
        scroll + size <= u16::MAX,
    ensures
        r == follow(scroll, pos, size),
{
    if pos >= scroll + size {
        if pos >= size - 1 {
            pos - (size - 1)
        } else {
            0
        }
    } else if pos < scroll {
        pos
    } else {
        scroll
    }
}

/// The scroll position kept within a text of `total` lines.
pub open spec fn clamp_scroll(scroll: u16, total: u16) -> u16 {
    let last = if total > 0 {
        (total - 1) as u16
    } else {
        0
    };
    if scroll <= last {
        scroll
    } else {
        last
    }
}

/// The scroll position kept within a text of `total` lines.
pub fn clamp_scroll_exec(scroll: u16, total: u16) -> (r: u16)
    ensures
        r == clamp_scroll(scroll, total),
{
    let last = if total > 0 {
        total - 1
    } else {
        0
    };
    if scroll <= last {
        scroll
    } else {
        last
    }
}

/// The first tree item shown when `height` rows are visible and item
/// `selected` must be one of them.
pub open spec fn tree_scroll_offset(selected: usize, height: usize) -> usize {
    if selected >= height {
        (selected - height + 1) as usize
    } else {
        0
    }
}

/// The first tree item shown.
pub fn tree_scroll_offset_exec(selected: usize, height: usize) -> (r: usize)
    requires
        height > 0 || selected < usize::MAX,
    ensures
        r == tree_scroll_offset(selected, height),
{
    if selected >= height {
        if height > 0 {
            selected - (height - 1)
        } else {
            selected + 1
        }
    } else {
        0
    }
}

/// Two spaces per level of depth.
pub open spec fn indent_of(depth: nat) -> Seq<char>
    decreases depth,
{
    if depth == 0 {
        Seq::empty()
    } else {
        indent_of((depth - 1) as nat) + seq![' ', ' ']
    }
}

/// The marker before an item: open or closed for directories and files.
pub open spec fn item_marker(k: TreeItemKindView) -> Seq<char> {
    match k {
        TreeItemKindView::Directory { expanded, .. } => if expanded {
            "▼ "@
        } else {
            "▶ "@
        },
        TreeItemKindView::File { expanded, .. } => if expanded {
            "▼ "@
        } else {
            "▶ "@
        },
        TreeItemKindView::Request { .. } => "  "@,
    }
}

/// The icon of an item.
pub open spec fn item_icon(k: TreeItemKindView) -> Seq<char> {
    match k {
        TreeItemKindView::Directory { .. } => "📁 "@,
        TreeItemKindView::File { .. } => "📄 "@,
        TreeItemKindView::Request { .. } => "• "@,
    }
}

/// The text of a tree line: indentation, marker, icon and name.
pub open spec fn tree_line_of(item: TreeItemView) -> Seq<char> {
    indent_of(item.depth as nat) + item_marker(item.kind) + item_icon(item.kind) + item.display
}

/// The text of a tree line.
pub fn tree_line(item: &TreeItem) -> (r: Vec<char>)
    ensures
        r@ == tree_line_of(item@),
{
    let mut out: Vec<char> = Vec::new();
    let mut d: usize = 0;
    while d < item.depth
        invariant
            d <= item.depth,
            out@ == indent_of(d as nat),
        decreases item.depth - d,
    {
        out.push(' ');
        out.push(' ');
        proof {
            assert(out@ =~= indent_of(d as nat) + seq![' ', ' ']);
        }
        d = d + 1;
    }
    match &item.kind {
        TreeItemKind::Directory { expanded, .. } => {
            if *expanded {
                append_str(&mut out, "▼ ");
            } else {
                append_str(&mut out, "▶ ");
            }
            append_str(&mut out, "📁 ");
        },
        TreeItemKind::File { expanded, .. } => {
            if *expanded {
                append_str(&mut out, "▼ ");
            } else {
                append_str(&mut out, "▶ ");
            }
            append_str(&mut out, "📄 ");
        },
        TreeItemKind::Request { .. } => {
            append_str(&mut out, "  ");
            append_str(&mut out, "• ");
        },
    }
    append(&mut out, &item.display);
    out
}

/// The colour class of a tree line.
#[derive(PartialEq, Eq, Structural, Clone, Copy, Debug)]
pub enum TreeLineShade {
    /// The selected line, with the tree focused.
    SelectedFocused,
    /// The selected line, with another panel focused.
    Selected,
    Directory,
    File,
    Request,
}

/// The colour class of tree line `idx`.
pub open spec fn tree_line_shade_of(k: TreeItemKindView, idx: usize, selected: usize, focused: bool) -> TreeLineShade {
    if idx == selected {
        if focused {
            TreeLineShade::SelectedFocused
        } else {
            TreeLineShade::Selected
        }
    } else {
        match k {
            TreeItemKindView::Directory { .. } => TreeLineShade::Directory,
            TreeItemKindView::File { .. } => TreeLineShade::File,
            TreeItemKindView::Request { .. } => TreeLineShade::Request,
        }
    }
}

/// The colour class of tree line `idx`.
pub fn tree_line_shade(item: &TreeItem, idx: usize, selected: usize, focused: bool) -> (r: TreeLineShade)
    ensures
        r == tree_line_shade_of(item@.kind, idx, selected, focused),
{
    if idx == selected {
        if focused {
            TreeLineShade::SelectedFocused
        } else {
            TreeLineShade::Selected
        }
    } else {
        match &item.kind {
            TreeItemKind::Directory { .. } => TreeLineShade::Directory,
            TreeItemKind::File { .. } => TreeLineShade::File,
            TreeItemKind::Request { .. } => TreeLineShade::Request,
        }
    }
}

/// The text of the status bar: the status message, or the URL when there
/// is none.
pub open spec fn status_bar_text(status: Seq<char>, url: Seq<char>) -> Seq<char> {
    if status.len() == 0 {
        url
    } else {
        status
    }
}

/// The text of the status bar.
pub fn status_bar(status: &Vec<char>, url: &Vec<char>) -> (r: Vec<char>)
    ensures
        r@ == status_bar_text(status@, url@),
{
    if status.len() == 0 {
        copy_text(url)
    } else {
        copy_text(status)
    }
}

/// The number of newlines among the first `n` characters.
pub open spec fn newlines_before(t: Seq<char>, n: int) -> nat
    decreases n,
{
    if n <= 0 || n > t.len() {
        0
    } else {
        newlines_before(t, n - 1) + if t[n - 1] == '\n' {
            1nat
        } else {
            0nat
        }
    }
}

/// The line and column of the body cursor (brought back onto the text).
pub open spec fn cursor_position(t: Seq<char>, cur: usize) -> (int, int) {
    let c = if cur > t.len() {
        t.len() as int
    } else {
        cur as int
    };
    (newlines_before(t, c) as int, c - crate::typing::line_start(t, c))
}

/// The line and column of the body cursor.
pub fn body_cursor_position(t: &Vec<char>, cur: usize) -> (r: (usize, usize))
    ensures
        (r.0 as int, r.1 as int) == cursor_position(t@, cur),
{
    let c = if cur > t.len() {
        t.len()
    } else {
        cur
    };
    let mut line: usize = 0;
    let mut i: usize = 0;
    let mut start: usize = 0;
    while i < c
        invariant
            i <= c <= t.len(),
            line == newlines_before(t@, i as int),
            line <= i,
            start <= i,
            start == crate::typing::line_start(t@, i as int),
        decreases c - i,
    {
        if t[i] == '\n' {
            line = line + 1;
            start = i + 1;
        }
        i = i + 1;
    }
    (line, c - start)
}

/// The colour a method is shown in.
#[derive(PartialEq, Eq, Structural, Clone, Copy, Debug)]
pub enum MethodColor {
    Green,
    Yellow,
    Blue,
    Magenta,
    Red,
    Cyan,
    Gray,
}

/// The colour of a method: GET green, POST yellow, PUT blue, PATCH
/// magenta, DELETE red, HEAD cyan, OPTIONS gray.
pub open spec fn method_color_of(m: crate::models::HttpMethod) -> MethodColor {
    match m {
        crate::models::HttpMethod::Get => MethodColor::Green,
        crate::models::HttpMethod::Post => MethodColor::Yellow,
        crate::models::HttpMethod::Put => MethodColor::Blue,
        crate::models::HttpMethod::Patch => MethodColor::Magenta,
        crate::models::HttpMethod::Delete => MethodColor::Red,
        crate::models::HttpMethod::Head => MethodColor::Cyan,
        crate::models::HttpMethod::Options => MethodColor::Gray,
    }
}

/// The colour of a method.
pub fn method_color(m: crate::models::HttpMethod) -> (r: MethodColor)
    ensures
        r == method_color_of(m),
{
    match m {
        crate::models::HttpMethod::Get => MethodColor::Green,
        crate::models::HttpMethod::Post => MethodColor::Yellow,
        crate::models::HttpMethod::Put => MethodColor::Blue,
        crate::models::HttpMethod::Patch => MethodColor::Magenta,
        crate::models::HttpMethod::Delete => MethodColor::Red,
        crate::models::HttpMethod::Head => MethodColor::Cyan,
        crate::models::HttpMethod::Options => MethodColor::Gray,
    }
}

/// The name of the focused panel in the title bar.
pub open spec fn focus_name_of(f: crate::app::FocusPanel) -> Seq<char> {
    match f {
        crate::app::FocusPanel::CollectionTree => "Collections"@,
        crate::app::FocusPanel::RequestEditor => "Request"@,
        crate::app::FocusPanel::ResponseViewer => "Response"@,
    }
}

/// The name of the focused panel in the title bar.
pub fn focus_name(f: crate::app::FocusPanel) -> (r: Vec<char>)
    ensures
        r@ == focus_name_of(f),
{
    match f {
        crate::app::FocusPanel::CollectionTree => crate::text::chars_of("Collections"),
        crate::app::FocusPanel::RequestEditor => crate::text::chars_of("Request"),
        crate::app::FocusPanel::ResponseViewer => crate::text::chars_of("Response"),
    }
}

/// The hint under the response body: how many bytes are selected (when
/// there is a selection), else the horizontal scroll position (when
/// scrolled), else nothing.
pub open spec fn response_hint_of(selected: Option<Option<Seq<char>>>, scroll_x: u16) -> Seq<char> {
    match selected {
        Some(text) => "  "@ + crate::text::decimal(
            match text {
                Some(t) => crate::selection::utf8_len(t),
                None => 0,
            },
        ) + " chars selected — [y] copy"@,
        None => if scroll_x > 0 {
            "← → scroll  col:"@ + crate::text::decimal(scroll_x as nat)
        } else {
            Seq::empty()
        },
    }
}

/// The hint under the response body.  `selected` is `Some` when there is
/// a selection, holding the selected text if any.
pub fn response_hint(selected: &Option<Option<Vec<char>>>, scroll_x: u16) -> (r: Vec<char>)
    ensures
        r@ == response_hint_of(
            match selected {
                Some(t) => Some(
                    match t {
                        Some(x) => Some(x@),
                        None => None,
                    },
                ),
                None => None,
            },
            scroll_x,
        ),
{
    match selected {
        Some(text) => {
            let n: u128 = match text {
                Some(t) => crate::selection::utf8_length(t),
                None => 0,
            };
            let mut out = crate::text::chars_of("  ");
            append(&mut out, &crate::text::decimal_text(n));
            append_str(&mut out, " chars selected — [y] copy");
            out
        },
        None => if scroll_x > 0 {
            let mut out = crate::text::chars_of("← → scroll  col:");
            append(&mut out, &crate::text::decimal_text(scroll_x as u128));
            out
        } else {
            Vec::new()
        },
    }
}

/// Whether the URL box shows, under the URL, the URL with its variables
/// substituted: when the URL is not being edited, holds `{{` somewhere, and
/// substitutes to another text.
pub open spec fn shows_resolved_url_of(url: Seq<char>, resolved: Seq<char>, editing: bool) -> bool {
    !editing && find_from(url, 0, seq!['{', '{']) is Some && resolved != url
}

/// Whether the URL box shows what the URL resolves to.
pub fn shows_resolved_url(url: &Vec<char>, resolved: &Vec<char>, editing: bool) -> (r: bool)
    ensures
        r == shows_resolved_url_of(url@, resolved@, editing),
{
    let mut open = Vec::new();
    open.push('{');
    open.push('{');
    proof {
        assert(open@ =~= seq!['{', '{']);
    }
    !editing && find_from_exec(url, 0, &open).is_some() && !crate::text::text_eq(resolved, url)
}

} // verus!
