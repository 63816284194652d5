//! Properties of the application as a whole: what every event keeps, and
//! what one operation undoes of another.
use vstd::prelude::*;
use crate::app::{
    AppView, ConfirmDeleteView, CreateModeView, EditorField, FocusPanel, key_index, lemma_key_index,
    TreeItemView, items_of, items_of_node, items_upto, map_insert, resolved_headers, rows_to_headers,
    subst_pair,
};
use crate::models::{RequestView, distinct_keys, law_substitute_empty, placeholder, substitute_all, substitute_first};
use crate::text::{has_prefix, replace_all};
use crate::selection::{line_or_empty, min_int, selection_piece, selection_pieces, selection_text};
use crate::nav::{sat_add, sat_sub};
use crate::dialogs::env_key;
use crate::keys::{ActionView, CONTROL, KeyCode, KeyInput, MouseInput, NO_MODIFIERS, SHIFT};
use crate::storage::{TreeKindView, TreeNodeView, descend, toggle_from, toggled};
use crate::path::PathView;
use crate::typing::{body_edit, clamp, header_edit, line_edit};

verus! {

/// Editing a single-line text never leaves the cursor past its end.
pub proof fn lemma_line_edit_cursor(t: Seq<char>, cur: usize, k: KeyInput)
    ensures
        line_edit(t, cur, k).1 <= line_edit(t, cur, k).0.len(),
{
    reveal(line_edit);
}

proof fn lemma_header_edit_keeps(
    rows: Seq<(Seq<char>, Seq<char>)>,
    sel: usize,
    ek: bool,
    cur: usize,
    k: KeyInput,
)
    requires
        rows.len() == 0 || sel < rows.len(),
    ensures
        ({
            let r = header_edit(rows, sel, ek, cur, k);
            r.0.len() == 0 || r.1 < r.0.len()
        }),
{
    reveal(header_edit);
}

proof fn lemma_env_key_keeps(
    rows: Seq<(Seq<char>, Seq<char>)>,
    sel: usize,
    ek: bool,
    cur: usize,
    editing: bool,
    show: bool,
    k: KeyInput,
)
    requires
        rows.len() == 0 || sel < rows.len(),
    ensures
        ({
            let r = env_key(rows, sel, ek, cur, editing, show, k);
            r.0.len() == 0 || r.1 < r.0.len()
        }),
{
    reveal(env_key);
}

/// Loading a request into the editor keeps the state well formed.
proof fn lemma_load_request_wf(a: AppView, ci: usize, ri: usize)
    requires
        a.wf(),
    ensures
        a.load_request(ci, ri).wf(),
{
}

/// Acting on the selected tree item keeps the state well formed.
proof fn lemma_select_item_wf(a: AppView)
    requires
        a.wf(),
    ensures
        a.select_item().wf(),
{
    if a.tree_selected < a.tree_items.len() {
        match a.tree_items[a.tree_selected as int].kind {
            crate::app::TreeItemKindView::Request { collection_index, request_index } => {
                lemma_load_request_wf(a, collection_index, request_index);
            },
            _ => {},
        }
    }
}

/// A key while a text field is edited keeps the state well formed.
proof fn lemma_text_input_wf(a: AppView, k: KeyInput)
    requires
        a.wf(),
    ensures
        a.text_input_step(k).0.wf(),
{
    reveal(AppView::text_input_step);
    lemma_header_edit_keeps(a.header_rows, a.header_selected, a.header_edit_key, a.header_cursor, k);
}

/// Adding a request keeps the state well formed.
proof fn lemma_add_request_wf(a: AppView)
    requires
        a.wf(),
    ensures
        a.add_request().0.wf(),
{
}

/// Deleting the selected request keeps the state well formed.
proof fn lemma_delete_request_wf(a: AppView)
    requires
        a.wf(),
    ensures
        a.delete_request().0.wf(),
{
}

/// Asking to delete the selected item keeps the state well formed.
proof fn lemma_prompt_delete_wf(a: AppView)
    requires
        a.wf(),
    ensures
        a.prompt_delete().0.wf(),
{
    lemma_delete_request_wf(a);
}

proof fn lemma_tree_action_wf(a: AppView, k: KeyInput)
    requires
        a.wf(),
    ensures
        a.tree_action_step(k).0.wf(),
{
    reveal(AppView::tree_action_step);
    if k.code == KeyCode::Enter {
        lemma_select_item_wf(a);
    } else {
        lemma_add_request_wf(a);
        lemma_prompt_delete_wf(a);
    }
}

/// A key in the collections tree keeps the state well formed.
proof fn lemma_nav_tree_wf(a: AppView, k: KeyInput)
    requires
        a.wf(),
    ensures
        a.nav_tree_step(k).0.wf(),
{
    reveal(AppView::nav_tree_step);
    lemma_tree_action_wf(a, k);
}

proof fn lemma_editor_panel_wf(a: AppView, k: KeyInput)
    requires
        a.wf(),
    ensures
        a.editor_panel_step(k).0.wf(),
{
    reveal(AppView::editor_panel_step);
}

proof fn lemma_editor_tab_wf(a: AppView, k: KeyInput)
    requires
        a.wf(),
    ensures
        a.editor_tab_step(k).0.wf(),
{
    reveal(AppView::editor_tab_step);
}

proof fn lemma_editor_move_wf(a: AppView, k: KeyInput)
    requires
        a.wf(),
    ensures
        a.editor_move_step(k).0.wf(),
{
    reveal(AppView::editor_move_step);
}

proof fn lemma_editor_rows_wf(a: AppView, k: KeyInput)
    requires
        a.wf(),
    ensures
        a.editor_rows_step(k).0.wf(),
{
    reveal(AppView::editor_rows_step);
}

/// A key in the request editor keeps the state well formed.
proof fn lemma_nav_editor_wf(a: AppView, k: KeyInput)
    requires
        a.wf(),
    ensures
        a.nav_editor_step(k).0.wf(),
{
    reveal(AppView::nav_editor_step);
    lemma_editor_panel_wf(a, k);
    lemma_editor_tab_wf(a, k);
    lemma_editor_move_wf(a, k);
    lemma_editor_rows_wf(a, k);
}

/// A key in the response viewer keeps the state well formed.
proof fn lemma_nav_response_wf(a: AppView, k: KeyInput)
    requires
        a.wf(),
    ensures
        a.nav_response_step(k).0.wf(),
{
    reveal(AppView::nav_response_step);
}

/// A key in a dialog keeps the state well formed.
proof fn lemma_dialogs_wf(a: AppView, k: KeyInput)
    requires
        a.wf(),
    ensures
        a.dir_key_step(k).0.wf(),
        a.env_key_step(k).wf(),
        a.confirm_key_step(k).0.wf(),
        a.create_key_step(k).0.wf(),
{
    lemma_line_edit_cursor(a.dir_input, a.dir_input_cursor, k);
    lemma_env_key_keeps(
        a.env_rows,
        a.env_selected,
        a.env_edit_key,
        a.env_cursor,
        a.editing,
        a.show_env_editor,
        k,
    );
    match a.create_mode {
        CreateModeView::Folder { input, cursor, .. } => {
            lemma_line_edit_cursor(input, cursor, k);
        },
        CreateModeView::Collection { input, cursor, .. } => {
            lemma_line_edit_cursor(input, cursor, k);
        },
        CreateModeView::Closed => {},
    }
}

/// A key that no shortcut took keeps the state well formed.
proof fn lemma_routed_wf(a: AppView, k: KeyInput)
    requires
        a.wf(),
    ensures
        a.routed_key_step(k).0.wf(),
{
    reveal(AppView::routed_key_step);
    lemma_dialogs_wf(a, k);
    lemma_text_input_wf(a, k);
    lemma_nav_tree_wf(a, k);
    lemma_nav_editor_wf(a, k);
    lemma_nav_response_wf(a, k);
}

/// Saving keeps the state well formed.
proof fn lemma_save_wf(a: AppView)
    requires
        a.wf(),
    ensures
        a.save_step().0.wf(),
{
}

/// Every key press keeps the state well formed: the handlers can take the
/// next key.
pub proof fn law_key_step_keeps_wf(a: AppView, k: KeyInput)
    requires
        a.wf(),
    ensures
        a.key_step(k).0.wf(),
{
    reveal(AppView::key_step);
    lemma_routed_wf(a, k);
    lemma_save_wf(a);
}

/// Every mouse event keeps the state well formed.
pub proof fn law_mouse_step_keeps_wf(a: AppView, m: MouseInput)
    requires
        a.wf(),
    ensures
        a.mouse_step(m).wf(),
{
    lemma_select_item_wf(a);
    lemma_select_item_wf(AppView { focus: FocusPanel::CollectionTree, editing: false, ..a });
}

/// No dialog or overlay is open and no text is being edited: keys go to
/// the focused panel.
pub open spec fn browsing(a: AppView) -> bool {
    &&& !a.editing
    &&& !a.show_dir_input
    &&& !a.show_help
    &&& !a.show_env_editor
    &&& a.confirm_delete is Closed
    &&& a.create_mode is Closed
}

/// The Tab key with no modifier.
pub open spec fn tab_key() -> KeyInput {
    KeyInput { code: KeyCode::Tab, modifiers: NO_MODIFIERS }
}

/// The Shift+Tab key.
pub open spec fn back_tab_key() -> KeyInput {
    KeyInput { code: KeyCode::BackTab, modifiers: SHIFT }
}

proof fn lemma_tab_step(a: AppView)
    requires
        browsing(a),
    ensures
        browsing(a.key_step(tab_key()).0),
        a.key_step(tab_key()).0.focus == match a.focus {
            FocusPanel::CollectionTree => FocusPanel::RequestEditor,
            FocusPanel::RequestEditor => FocusPanel::ResponseViewer,
            FocusPanel::ResponseViewer => FocusPanel::CollectionTree,
        },
        a.key_step(back_tab_key()).0.focus == match a.focus {
            FocusPanel::CollectionTree => FocusPanel::ResponseViewer,
            FocusPanel::RequestEditor => FocusPanel::CollectionTree,
            FocusPanel::ResponseViewer => FocusPanel::RequestEditor,
        },
        browsing(a.key_step(back_tab_key()).0),
{
    reveal(AppView::key_step);
    reveal(AppView::routed_key_step);
    reveal(AppView::nav_tree_step);
    reveal(AppView::nav_editor_step);
    reveal(AppView::editor_panel_step);
    reveal(AppView::nav_response_step);
}

/// While browsing, Tab moves the focus to the next panel (collections,
/// request, response, then collections again): three presses come back to
/// the panel one started from, and Shift+Tab undoes a Tab.
pub proof fn law_tab_cycles_focus(a: AppView)
    requires
        browsing(a),
    ensures
        a.key_step(tab_key()).0.focus != a.focus,
        a.key_step(tab_key()).0.key_step(tab_key()).0.key_step(tab_key()).0.focus == a.focus,
        a.key_step(tab_key()).0.key_step(back_tab_key()).0.focus == a.focus,
{
    lemma_tab_step(a);
    let b = a.key_step(tab_key()).0;
    lemma_tab_step(b);
    let c = b.key_step(tab_key()).0;
    lemma_tab_step(c);
}

/// The `?` key.
pub open spec fn help_key() -> KeyInput {
    KeyInput { code: KeyCode::Char('?'), modifiers: SHIFT }
}

/// With the environment editor and the change-root dialog closed, `?`
/// shows or hides the help overlay (and ends editing): pressing it twice
/// leaves help as it was.
pub proof fn law_help_toggles(a: AppView)
    requires
        !a.show_env_editor,
        !a.show_dir_input,
    ensures
        a.key_step(help_key()).0.show_help == !a.show_help,
        a.key_step(help_key()).0.key_step(help_key()).0 == (AppView { editing: false, ..a }),
{
    reveal(AppView::key_step);
}

/// Ctrl+C quits from every state, whatever is open or being edited, and
/// changes nothing.
pub proof fn law_ctrl_c_quits(a: AppView)
    ensures
        a.key_step(KeyInput { code: KeyCode::Char('c'), modifiers: CONTROL }) == (a, ActionView::Quit),
{
    reveal(AppView::key_step);
}

/// F5 sends the request from everywhere but the environment editor and the
/// change-root dialog: the response panel shows that it is loading, and
/// nothing else changes but the status line.
pub proof fn law_f5_sends(a: AppView, m: u8)
    requires
        !a.show_env_editor,
        !a.show_dir_input,
    ensures
        a.key_step(KeyInput { code: KeyCode::F(5), modifiers: m }) == (
            AppView { is_loading: true, status_message: "Sending request..."@, ..a },
            ActionView::SendRequest,
        ),
{
    reveal(AppView::key_step);
}

/// While browsing, in any panel, `r` sends the request just as F5 does.
pub proof fn law_r_sends(a: AppView)
    requires
        browsing(a),
    ensures
        a.key_step(KeyInput { code: KeyCode::Char('r'), modifiers: NO_MODIFIERS }) == (
            AppView { is_loading: true, status_message: "Sending request..."@, ..a },
            ActionView::SendRequest,
        ),
        a.key_step(KeyInput { code: KeyCode::Char('r'), modifiers: NO_MODIFIERS }) == a.key_step(
            KeyInput { code: KeyCode::F(5), modifiers: NO_MODIFIERS },
        ),
{
    reveal(AppView::key_step);
}

/// While a text field is edited (no dialog or overlay open), Esc stops
/// editing and leaves the field, its text and its cursor as they are.
pub proof fn law_esc_stops_editing(a: AppView, m: u8)
    requires
        a.editing,
        !a.show_dir_input,
        !a.show_help,
        !a.show_env_editor,
        a.confirm_delete is Closed,
        a.create_mode is Closed,
    ensures
        a.key_step(KeyInput { code: KeyCode::Esc, modifiers: m }) == (
            AppView { editing: false, ..a },
            ActionView::Continue,
        ),
{
    reveal(AppView::key_step);
    reveal(AppView::routed_key_step);
    reveal(AppView::text_input_step);
}

/// When no text is being edited, W, E and V jump to the collections, the
/// request editor and the response viewer, and change nothing else.
pub proof fn law_panel_jumps(a: AppView, m: u8)
    requires
        !a.editing,
    ensures
        a.key_step(KeyInput { code: KeyCode::Char('W'), modifiers: m }) == (
            AppView { focus: FocusPanel::CollectionTree, ..a },
            ActionView::Continue,
        ),
        a.key_step(KeyInput { code: KeyCode::Char('E'), modifiers: m }) == (
            AppView { focus: FocusPanel::RequestEditor, ..a },
            ActionView::Continue,
        ),
        a.key_step(KeyInput { code: KeyCode::Char('V'), modifiers: m }) == (
            AppView { focus: FocusPanel::ResponseViewer, ..a },
            ActionView::Continue,
        ),
{
    reveal(AppView::key_step);
}

/// Typing a character and then Backspace gives back the text, with the
/// cursor where it was (brought back onto the text).
pub proof fn law_type_then_backspace(t: Seq<char>, cur: usize, ch: char, m: u8)
    requires
        m == NO_MODIFIERS || m == SHIFT,
        t.len() < usize::MAX,
    ensures
        ({
            let (t1, c1) = line_edit(t, cur, KeyInput { code: KeyCode::Char(ch), modifiers: m });
            line_edit(t1, c1, KeyInput { code: KeyCode::Backspace, modifiers: NO_MODIFIERS }) == (
                t,
                clamp(cur, t.len()),
            )
        }),
        ({
            let (t1, c1) = body_edit(t, cur, KeyInput { code: KeyCode::Char(ch), modifiers: m });
            body_edit(t1, c1, KeyInput { code: KeyCode::Backspace, modifiers: NO_MODIFIERS }) == (
                t,
                clamp(cur, t.len()),
            )
        }),
{
    reveal(line_edit);
    reveal(body_edit);
    let c = clamp(cur, t.len());
    assert(t.insert(c as int, ch).remove(c as int) =~= t);
}

/// Expanding a directory node and collapsing it again gives back the node.
pub proof fn law_toggle_twice(n: TreeNodeView)
    ensures
        toggled(toggled(n)) == n,
{
}

/// Toggling the directory at a path, in a list of tree nodes, and then
/// toggling the same path again gives back the nodes.  (The first visit
/// and the second stop at the same node, since toggling keeps paths.)
pub proof fn law_toggle_path_twice(nodes: Seq<TreeNodeView>, path: PathView)
    ensures
        toggle_from(toggle_from(nodes, path), path) == nodes,
    decreases nodes, 1nat,
{
    reveal(toggle_from);
    reveal(descend);
    if nodes.len() == 0 {
    } else if nodes[0].path == path {
        let t = toggle_from(nodes, path);
        assert(t == nodes.update(0, toggled(nodes[0])));
        assert(t[0].path == path);
        assert(toggle_from(t, path) == t.update(0, toggled(t[0])));
        assert(toggle_from(t, path) =~= nodes);
    } else {
        let rest = nodes.subrange(1, nodes.len() as int);
        let d = descend(nodes[0], path);
        lemma_descend_twice(nodes[0], path);
        law_toggle_path_twice(rest, path);
        let t = seq![d] + toggle_from(rest, path);
        assert(nodes.len() > 0 && nodes[0].path != path);
        assert(toggle_from(nodes, path) =~= t);
        assert(d.path == nodes[0].path);
        assert(t[0] == d);
        assert(t.subrange(1, t.len() as int) =~= toggle_from(rest, path));
        assert(toggle_from(t, path) == seq![descend(d, path)] + toggle_from(
            t.subrange(1, t.len() as int),
            path,
        ));
        assert(toggle_from(t, path) =~= nodes);
    }
}

/// The items of the first `j` nodes of a list are those of the first `j`
/// nodes of any longer list that starts with it.
proof fn lemma_items_upto_prefix(
    a: Seq<TreeNodeView>,
    b: Seq<TreeNodeView>,
    j: nat,
    depth: usize,
    exp: Set<usize>,
    cols: Seq<crate::storage::CollectionFileView>,
)
    requires
        j <= a.len(),
    ensures
        items_upto(a + b, j, depth, exp, cols) == items_upto(a, j, depth, exp, cols),
    decreases j,
{
    reveal(items_upto);
    if j > 0 {
        lemma_items_upto_prefix(a, b, (j - 1) as nat, depth, exp, cols);
        assert((a + b)[j - 1] == a[j - 1]);
    }
}

proof fn lemma_items_upto_concat(
    a: Seq<TreeNodeView>,
    b: Seq<TreeNodeView>,
    k: nat,
    depth: usize,
    exp: Set<usize>,
    cols: Seq<crate::storage::CollectionFileView>,
)
    requires
        k <= b.len(),
    ensures
        items_upto(a + b, a.len() + k, depth, exp, cols) == items_of(a, depth, exp, cols) + items_upto(
            b,
            k,
            depth,
            exp,
            cols,
        ),
    decreases k,
{
    reveal(items_upto);
    if k == 0 {
        lemma_items_upto_prefix(a, b, a.len(), depth, exp, cols);
        assert(items_upto(b, 0, depth, exp, cols) == Seq::<TreeItemView>::empty());
        assert(items_of(a, depth, exp, cols) + Seq::<TreeItemView>::empty() =~= items_of(a, depth, exp, cols));
    } else {
        lemma_items_upto_concat(a, b, (k - 1) as nat, depth, exp, cols);
        assert((a + b)[a.len() + k - 1] == b[k - 1]);
        let x = items_of(a, depth, exp, cols);
        let y = items_upto(b, (k - 1) as nat, depth, exp, cols);
        let z = items_of_node(b[k - 1], depth, exp, cols);
        assert(x + y + z =~= x + (y + z));
    }
}

/// The visible items of a list of tree nodes are the items of each node in
/// turn: those of two lists one after the other are the items of the first
/// followed by those of the second, and a single node gives its own line
/// followed (when it is expanded) by its children's or requests' lines.
pub proof fn law_items_concat(
    a: Seq<TreeNodeView>,
    b: Seq<TreeNodeView>,
    n: TreeNodeView,
    depth: usize,
    exp: Set<usize>,
    cols: Seq<crate::storage::CollectionFileView>,
)
    ensures
        items_of(a + b, depth, exp, cols) == items_of(a, depth, exp, cols) + items_of(b, depth, exp, cols),
        items_of(seq![n], depth, exp, cols) == items_of_node(n, depth, exp, cols),
{
    lemma_items_upto_concat(a, b, b.len(), depth, exp, cols);
    assert((a + b).len() == a.len() + b.len());
    reveal(items_upto);
    assert(items_upto(seq![n], 0, depth, exp, cols) == Seq::<TreeItemView>::empty());
    assert(Seq::<TreeItemView>::empty() + items_of_node(n, depth, exp, cols) =~= items_of_node(
        n,
        depth,
        exp,
        cols,
    ));
}

/// Descending into a node twice for the same path gives back the node.
proof fn lemma_descend_twice(n: TreeNodeView, path: PathView)
    ensures
        descend(descend(n, path), path) == n,
    decreases n, 0nat,
{
    reveal(descend);
    reveal(toggle_from);
    match n.kind {
        TreeKindView::Directory { children, expanded } => {
            law_toggle_path_twice(children, path);
            let once = descend(n, path);
            assert(once.kind == TreeKindView::Directory { children: toggle_from(children, path), expanded });
            assert(descend(once, path).kind == n.kind);
            assert(descend(once, path) =~= n);
        },
        TreeKindView::File { .. } => {},
    }
}

/// In the response viewer, Down then Up scrolls back to where one was
/// (unless the view was already scrolled as far as it goes).
pub proof fn law_scroll_down_up(a: AppView)
    requires
        browsing(a),
        a.focus == FocusPanel::ResponseViewer,
        a.response_scroll < u16::MAX,
    ensures
        a.key_step(KeyInput { code: KeyCode::Down, modifiers: NO_MODIFIERS }).0.key_step(
            KeyInput { code: KeyCode::Up, modifiers: NO_MODIFIERS },
        ).0 == a,
{
    reveal(AppView::key_step);
    reveal(AppView::routed_key_step);
    reveal(AppView::nav_response_step);
}

/// With no environment variables, the first `n` headers are set as they
/// are, when their names are distinct.
proof fn lemma_resolved_headers_plain(h: Seq<(Seq<char>, Seq<char>)>, n: nat)
    requires
        n <= h.len(),
        distinct_keys(h),
    ensures
        resolved_headers(h, Seq::empty(), n) == h.take(n as int),
    decreases n,
{
    if n > 0 {
        lemma_resolved_headers_plain(h, (n - 1) as nat);
        let m = h.take(n - 1);
        law_substitute_empty(h[n - 1].0);
        law_substitute_empty(h[n - 1].1);
        lemma_key_index(m, h[n - 1].0);
        assert(h.take(n as int) =~= m.push(h[n - 1]));
    } else {
        assert(h.take(0) =~= Seq::<(Seq<char>, Seq<char>)>::empty());
    }
}

/// With no environment variables, the request that is sent is the request
/// being edited, when its headers have distinct names (as the headers of a
/// collection file and those written back from the rows do).
pub proof fn law_resolved_without_variables(a: AppView)
    requires
        a.env.len() == 0,
        distinct_keys(a.current_request.headers),
    ensures
        a.resolved() == a.current_request,
{
    law_substitute_empty(a.current_request.url);
    assert(a.env =~= Seq::<(Seq<char>, Seq<char>)>::empty());
    match a.current_request.body {
        Some(b) => {
            law_substitute_empty(b);
        },
        None => {},
    }
    let h = a.current_request.headers;
    lemma_resolved_headers_plain(h, h.len());
    assert(h.take(h.len() as int) =~= h);
}

/// The headers that are sent never name a header twice.
pub proof fn law_resolved_headers_distinct(
    h: Seq<(Seq<char>, Seq<char>)>,
    vars: Seq<(Seq<char>, Seq<char>)>,
    n: nat,
)
    ensures
        distinct_keys(resolved_headers(h, vars, n)),
    decreases n,
{
    if n > 0 && n <= h.len() {
        law_resolved_headers_distinct(h, vars, (n - 1) as nat);
        let p = subst_pair(h[n - 1], vars);
        lemma_map_insert_distinct(resolved_headers(h, vars, (n - 1) as nat), p.0, p.1);
    }
}

/// Setting a name that is not yet in a list of pairs with distinct names
/// keeps the names distinct; so does replacing the value of a name.
pub proof fn lemma_map_insert_distinct(m: Seq<(Seq<char>, Seq<char>)>, k: Seq<char>, v: Seq<char>)
    requires
        distinct_keys(m),
    ensures
        distinct_keys(map_insert(m, k, v)),
{
    lemma_key_index(m, k);
}

/// The headers written back from the rows never name a header twice.
pub proof fn law_synced_headers_distinct(rows: Seq<(Seq<char>, Seq<char>)>, n: nat)
    ensures
        distinct_keys(rows_to_headers(rows, n)),
    decreases n,
{
    reveal(rows_to_headers);
    if n > 0 && n <= rows.len() {
        law_synced_headers_distinct(rows, (n - 1) as nat);
        lemma_map_insert_distinct(rows_to_headers(rows, (n - 1) as nat), rows[n - 1].0, rows[n - 1].1);
    }
}

/// Rows with distinct, non-empty names are written back as they are.
proof fn lemma_rows_to_headers_exact(rows: Seq<(Seq<char>, Seq<char>)>, n: nat)
    requires
        n <= rows.len(),
        distinct_keys(rows),
        forall|i: int| 0 <= i < rows.len() ==> #[trigger] rows[i].0.len() > 0,
    ensures
        rows_to_headers(rows, n) == rows.take(n as int),
    decreases n,
{
    reveal(rows_to_headers);
    if n > 0 {
        lemma_rows_to_headers_exact(rows, (n - 1) as nat);
        let m = rows.take(n - 1);
        lemma_key_index(m, rows[n - 1].0);
        assert(rows[n - 1].0.len() > 0);
        assert(rows.take(n as int) =~= m.push(rows[n - 1]));
    } else {
        assert(rows.take(0) =~= Seq::<(Seq<char>, Seq<char>)>::empty());
    }
}

/// Loading a request into the editor and writing the header rows back
/// gives back the request, when its headers have distinct, non-empty names
/// (as the headers of a collection file do).
pub proof fn law_load_then_sync(a: AppView, ci: usize, ri: usize)
    requires
        ci < a.collections.len(),
        ri < a.collections[ci as int].collection.requests.len(),
        distinct_keys(a.collections[ci as int].collection.requests[ri as int].headers),
        forall|i: int|
            0 <= i < a.collections[ci as int].collection.requests[ri as int].headers.len()
                ==> #[trigger] a.collections[ci as int].collection.requests[ri as int].headers[i].0.len() > 0,
    ensures
        a.load_request(ci, ri).sync_headers().current_request == a.collections[ci as int].collection.requests[ri as int],
{
    let req = a.collections[ci as int].collection.requests[ri as int];
    lemma_rows_to_headers_exact(req.headers, req.headers.len());
    assert(req.headers.take(req.headers.len() as int) =~= req.headers);
}

/// Saving puts the edited request (with its header rows written back) in
/// its collection, where the editor finds it again: request
/// `current_request_index` of the collection file at the request's path.
pub proof fn law_store_then_read(a: AppView)
    requires
        a.collections.len() <= usize::MAX,
        forall|i: int|
            0 <= i < a.collections.len() ==> #[trigger] a.collections[i].collection.requests.len()
                <= usize::MAX,
    ensures
        ({
            let (b, r) = a.store_request();
            r matches Ok(Some(ci)) ==> {
                &&& ci < b.collections.len()
                &&& Some(b.collections[ci as int].path) == a.current_collection_path
                &&& b.current_request_index matches Some(ri) && ri < b.collections[ci as int].collection.requests.len()
                    && b.collections[ci as int].collection.requests[ri as int] == b.current_request
                    && b.load_request(ci, ri).current_request == a.sync_headers().current_request
            }
        }),
{
    let s = a.sync_headers();
    match s.current_collection_path {
        Some(path) => {
            crate::storage::lemma_position_of_path(s.collections, path);
        },
        None => {},
    }
}

/// The application starts well formed.
pub proof fn law_initial_wf(
    cols: Seq<crate::storage::CollectionFileView>,
    nodes: Seq<TreeNodeView>,
    root: crate::path::PathView,
    env: Seq<(Seq<char>, Seq<char>)>,
)
    ensures
        crate::session::initial_view(cols, nodes, root, env).wf(),
{
    let a = crate::session::startup_view(cols, nodes, root, env).rebuild();
    lemma_load_request_wf(a, 0, 0);
}

/// The texts of `ws` one after the other, with `sep` between each two.
pub open spec fn joined(ws: Seq<Seq<char>>, sep: Seq<char>) -> Seq<char>
    decreases ws.len(),
{
    if ws.len() == 0 {
        Seq::empty()
    } else if ws.len() == 1 {
        ws[0]
    } else {
        ws[0] + sep + joined(ws.drop_first(), sep)
    }
}

/// Joining one more text adds the separator and that text at the end.
pub proof fn lemma_joined_push(ws: Seq<Seq<char>>, sep: Seq<char>, x: Seq<char>)
    requires
        ws.len() >= 1,
    ensures
        joined(ws.push(x), sep) == joined(ws, sep) + sep + x,
    decreases ws.len(),
{
    if ws.len() == 1 {
        assert(ws.push(x).drop_first() =~= seq![x]);
        assert(joined(seq![x], sep) == x);
    } else {
        assert(ws.push(x).drop_first() =~= ws.drop_first().push(x));
        lemma_joined_push(ws.drop_first(), sep, x);
        assert(ws[0] + sep + (joined(ws.drop_first(), sep) + sep + x) =~= ws[0] + sep + joined(
            ws.drop_first(),
            sep,
        ) + sep + x);
    }
}

/// No character of the text opens a brace.
pub open spec fn no_brace(w: Seq<char>) -> bool {
    forall|i: int| 0 <= i < w.len() ==> w[i] != '{'
}

/// A pattern that starts with `{` never matches inside a text without `{`:
/// the scan copies that text and goes on after it.
proof fn lemma_replace_all_skips(w: Seq<char>, r: Seq<char>, pat: Seq<char>, rep: Seq<char>)
    requires
        no_brace(w),
        pat.len() > 0,
        pat[0] == '{',
    ensures
        replace_all(w + r, pat, rep) == w + replace_all(r, pat, rep),
    decreases w.len(),
{
    if w.len() == 0 {
        assert(w + r =~= r);
        assert(w + replace_all(r, pat, rep) =~= replace_all(r, pat, rep));
    } else {
        let s = w + r;
        if has_prefix(s, pat) {
            assert(s.take(pat.len() as int)[0] == s[0]);
            assert(false);
        }
        assert(s.drop_first() =~= w.drop_first() + r);
        lemma_replace_all_skips(w.drop_first(), r, pat, rep);
        assert(seq![s[0]] + (w.drop_first() + replace_all(r, pat, rep)) =~= w + replace_all(
            r,
            pat,
            rep,
        ));
    }
}

/// The pattern at the start is replaced and the scan goes on after it.
proof fn lemma_replace_all_head(r: Seq<char>, pat: Seq<char>, rep: Seq<char>)
    requires
        pat.len() > 0,
    ensures
        replace_all(pat + r, pat, rep) == rep + replace_all(r, pat, rep),
{
    let s = pat + r;
    assert(s.take(pat.len() as int) =~= pat);
    assert(s.skip(pat.len() as int) =~= r);
}

/// Every occurrence is replaced: in a text made of pieces without `{`
/// separated by a pattern that starts with `{`, each of the separators
/// becomes the replacement, however many there are.
pub proof fn law_replace_all_every_occurrence(
    ws: Seq<Seq<char>>,
    pat: Seq<char>,
    rep: Seq<char>,
)
    requires
        ws.len() >= 1,
        forall|i: int| 0 <= i < ws.len() ==> no_brace(#[trigger] ws[i]),
        pat.len() > 0,
        pat[0] == '{',
    ensures
        replace_all(joined(ws, pat), pat, rep) == joined(ws, rep),
    decreases ws.len(),
{
    if ws.len() == 1 {
        lemma_replace_all_skips(ws[0], Seq::empty(), pat, rep);
        assert(ws[0] + Seq::<char>::empty() =~= ws[0]);
    } else {
        let rest = ws.drop_first();
        assert forall|i: int| 0 <= i < rest.len() implies no_brace(#[trigger] rest[i]) by {
            assert(rest[i] == ws[i + 1]);
        }
        law_replace_all_every_occurrence(rest, pat, rep);
        assert(joined(ws, pat) =~= ws[0] + (pat + joined(rest, pat)));
        lemma_replace_all_skips(ws[0], pat + joined(rest, pat), pat, rep);
        lemma_replace_all_head(joined(rest, pat), pat, rep);
        assert(ws[0] + (rep + joined(rest, rep)) =~= joined(ws, rep));
    }
}

/// Substitution replaces every `{{k}}` of a variable: a text made of pieces
/// without `{` around any number of placeholders of `k` becomes the same
/// pieces around the value (so `{{k}}{{k}}` becomes the value twice).
pub proof fn law_substitute_every_placeholder(ws: Seq<Seq<char>>, k: Seq<char>, v: Seq<char>)
    requires
        ws.len() >= 1,
        forall|i: int| 0 <= i < ws.len() ==> no_brace(#[trigger] ws[i]),
    ensures
        substitute_all(joined(ws, placeholder(k)), seq![(k, v)]) == joined(ws, v),
{
    reveal(crate::models::substitute_first);
    let vars = seq![(k, v)];
    let t = joined(ws, placeholder(k));
    assert(substitute_first(t, vars, 0) == t);
    assert(vars[0].0 == k && vars[0].1 == v);
    assert(placeholder(k)[0] == '{');
    law_replace_all_every_occurrence(ws, placeholder(k), v);
}

/// A selection that starts at the beginning of a line and takes the whole
/// last line copies those lines, each but the last followed by a newline.
proof fn lemma_selection_whole_lines(
    lines: Seq<Seq<char>>,
    s: (usize, usize),
    e: (usize, usize),
    n: nat,
)
    requires
        s.0 < e.0 < lines.len(),
        s.1 == 0,
        1 <= n <= e.0 - s.0,
    ensures
        selection_pieces(lines, s, e, n) == joined(lines.subrange(s.0 as int, s.0 + n), seq!['\n'])
            + seq!['\n'],
    decreases n,
{
    let sub = lines.subrange(s.0 as int, s.0 + n);
    if n == 1 {
        assert(selection_pieces(lines, s, e, 0) == Seq::<char>::empty());
        assert(line_or_empty(lines, s.0 as int) == lines[s.0 as int]);
        assert(lines[s.0 as int].skip(0) =~= lines[s.0 as int]);
        assert(sub =~= seq![lines[s.0 as int]]);
        assert(Seq::<char>::empty() + (lines[s.0 as int] + seq!['\n']) =~= lines[s.0 as int] + seq![
            '\n',
        ]);
    } else {
        lemma_selection_whole_lines(lines, s, e, (n - 1) as nat);
        let prev = lines.subrange(s.0 as int, s.0 + n - 1);
        assert(sub =~= prev.push(lines[s.0 + n - 1]));
        lemma_joined_push(prev, seq!['\n'], lines[s.0 + n - 1]);
        assert(line_or_empty(lines, s.0 + n - 1) == lines[s.0 + n - 1]);
    }
}

/// Selecting from the start of line `s` to (at least) the end of line `e`
/// copies exactly lines `s` to `e`, joined by newlines: each selected line
/// but the last ends with a newline, and nothing is lost or added.
pub proof fn law_selection_copies_whole_lines(lines: Seq<Seq<char>>, s: (usize, usize), e: (usize, usize))
    requires
        s.0 < e.0 < lines.len(),
        s.1 == 0,
        e.1 + 1 >= lines[e.0 as int].len(),
    ensures
        selection_text(lines, s, e) == Some(joined(lines.subrange(s.0 as int, e.0 + 1), seq!['\n'])),
{
    let n = (e.0 - s.0) as nat;
    lemma_selection_whole_lines(lines, s, e, n);
    let prev = lines.subrange(s.0 as int, s.0 + n);
    let last = lines[e.0 as int];
    assert(line_or_empty(lines, e.0 as int) == last);
    assert(last.take(min_int(e.1 + 1, last.len() as int)) =~= last);
    assert(lines.subrange(s.0 as int, e.0 + 1) =~= prev.push(last));
    lemma_joined_push(prev, seq!['\n'], last);
    assert(selection_pieces(lines, s, e, n + 1) == selection_pieces(lines, s, e, n) + selection_piece(
        lines,
        s,
        e,
        s.0 + n,
    ));
}

/// Deleting the selected request removes exactly that request from its
/// collection: the ones before it stay where they are, the ones after it
/// move up by one, every other collection stays as it was, and the name of
/// the removed request is reported.
pub proof fn law_delete_removes_the_selected_request(a: AppView, ci: usize, ri: usize)
    requires
        a.tree_selected < a.tree_items.len(),
        a.tree_items[a.tree_selected as int].kind == (crate::app::TreeItemKindView::Request {
            collection_index: ci,
            request_index: ri,
        }),
        ci < a.collections.len(),
        ri < a.collections[ci as int].collection.requests.len(),
    ensures
        ({
            let (b, r) = a.delete_request();
            let old_reqs = a.collections[ci as int].collection.requests;
            let new_reqs = b.collections[ci as int].collection.requests;
            &&& r == Some((ci, ri, old_reqs[ri as int].name))
            &&& b.collections.len() == a.collections.len()
            &&& new_reqs.len() == old_reqs.len() - 1
            &&& forall|j: int| 0 <= j < ri ==> new_reqs[j] == old_reqs[j]
            &&& forall|j: int| ri <= j < new_reqs.len() ==> new_reqs[j] == old_reqs[j + 1]
            &&& b.collections[ci as int].path == a.collections[ci as int].path
            &&& forall|i: int| 0 <= i < a.collections.len() && i != ci ==> b.collections[i] == a.collections[i]
        }),
{
}

/// With a collection file, or one of its requests, selected, a new
/// collection or folder goes into the directory that holds that file, and
/// so does a new sibling.
pub proof fn law_create_beside_the_selected_file(a: AppView, ci: usize, dir: PathView)
    requires
        a.tree_selected < a.tree_items.len(),
        ({
            let kind = a.tree_items[a.tree_selected as int].kind;
            ||| kind is File && kind->File_collection_index == ci
            ||| kind is Request && kind->Request_collection_index == ci
        }),
        ci < a.collections.len(),
        a.collections[ci as int].path.parent() == Some(dir),
    ensures
        a.create_parent() == dir,
        a.sibling_parent() == dir,
{
}

/// Delete in the body removes the character at the cursor and leaves the
/// cursor where it is; at the end of the text it changes nothing.  It is
/// the same as moving right and then pressing Backspace.
pub proof fn law_body_delete(t: Seq<char>, c: usize, m: u8)
    requires
        c <= t.len(),
        t.len() <= usize::MAX,
    ensures
        c < t.len() ==> body_edit(t, c, KeyInput { code: KeyCode::Delete, modifiers: m }) == (
            t.remove(c as int),
            c,
        ),
        c == t.len() ==> body_edit(t, c, KeyInput { code: KeyCode::Delete, modifiers: m }) == (t, c),
        c < t.len() ==> ({
            let (t1, c1) = body_edit(t, c, KeyInput { code: KeyCode::Right, modifiers: NO_MODIFIERS });
            body_edit(t1, c1, KeyInput { code: KeyCode::Backspace, modifiers: NO_MODIFIERS })
        }) == body_edit(t, c, KeyInput { code: KeyCode::Delete, modifiers: m }),
{
    reveal(body_edit);
    if c < t.len() {
        let r = KeyInput { code: KeyCode::Right, modifiers: NO_MODIFIERS };
        let b = KeyInput { code: KeyCode::Backspace, modifiers: NO_MODIFIERS };
        let (t1, c1) = body_edit(t, c, r);
        assert(t1 == t && c1 == c + 1);
        let (t2, c2) = body_edit(t1, c1, b);
        assert(c1 > 0 && clamp(c1, t1.len()) == c1);
        assert(c2 == c);
        assert(t2 == t.remove(c as int));
    }
}

/// Delete in a single-line field (name, URL, header cell) removes the
/// character at the cursor and leaves the cursor where it is; it is the
/// same as moving right and then pressing Backspace.
pub proof fn law_line_delete(t: Seq<char>, c: usize, m: u8)
    requires
        c <= t.len(),
        t.len() <= usize::MAX,
    ensures
        c < t.len() ==> line_edit(t, c, KeyInput { code: KeyCode::Delete, modifiers: m }) == (
            t.remove(c as int),
            c,
        ),
        c == t.len() ==> line_edit(t, c, KeyInput { code: KeyCode::Delete, modifiers: m }) == (t, c),
        c < t.len() ==> ({
            let (t1, c1) = line_edit(t, c, KeyInput { code: KeyCode::Right, modifiers: NO_MODIFIERS });
            line_edit(t1, c1, KeyInput { code: KeyCode::Backspace, modifiers: NO_MODIFIERS })
        }) == line_edit(t, c, KeyInput { code: KeyCode::Delete, modifiers: m }),
{
    reveal(line_edit);
    if c < t.len() {
        let r = KeyInput { code: KeyCode::Right, modifiers: NO_MODIFIERS };
        let b = KeyInput { code: KeyCode::Backspace, modifiers: NO_MODIFIERS };
        let (t1, c1) = line_edit(t, c, r);
        assert(t1 == t && c1 == c + 1);
        let (t2, c2) = line_edit(t1, c1, b);
        assert(c1 > 0 && clamp(c1, t1.len()) == c1);
        assert(c2 == c);
        assert(t2 == t.remove(c as int));
    }
}

} // verus!
