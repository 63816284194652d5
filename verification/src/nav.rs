//! Keys when no text is being edited: in the collections tree, the request
//! editor and the response viewer.
use vstd::prelude::*;
use crate::app::{
    App, AppView, CreateMode, CreateModeView, EditorField, FocusPanel, HeaderRow, RequestTab,
    ResponseTab, header_rows_view, lemma_header_rows_empty, lemma_header_rows_index,
    lemma_header_rows_len, lemma_header_rows_push, lemma_header_rows_remove, new_request_name,
};
use crate::keys::{ActionView, AppAction, CONTROL, KeyCode, KeyInput, NO_MODIFIERS, char_with, is_char_with};
use crate::models::{HttpMethod, blank_request};
use crate::text::{append, chars_of};

verus! {

/// `a + b`, but no more than the largest `u16`.
pub open spec fn sat_add(a: u16, b: u16) -> u16 {
    if a + b > u16::MAX {
        u16::MAX
    } else {
        (a + b) as u16
    }
}

/// `a - b`, but no less than zero.
pub open spec fn sat_sub(a: u16, b: u16) -> u16 {
    if a < b {
        0
    } else {
        (a - b) as u16
    }
}

pub fn sat_add_exec(a: u16, b: u16) -> (r: u16)
    ensures
        r == sat_add(a, b),
{
    if a as u32 + b as u32 > 65535 {
        65535
    } else {
        a + b
    }
}

pub fn sat_sub_exec(a: u16, b: u16) -> (r: u16)
    ensures
        r == sat_sub(a, b),
{
    if a < b {
        0
    } else {
        a - b
    }
}

/// Down in the request editor: from the name or the method box to the URL;
/// on the headers tab from the URL to the headers, then down the rows; on
/// the body tab to the body.
pub open spec fn editor_down(f: EditorField, tab: RequestTab, sel: usize, n: nat) -> (EditorField, usize) {
    if f == EditorField::Name || f == EditorField::Method {
        (EditorField::Url, sel)
    } else if tab == RequestTab::Headers {
        if f == EditorField::Url {
            (EditorField::Headers, sel)
        } else if n > 0 && sel + 1 < n {
            (f, (sel + 1) as usize)
        } else {
            (f, sel)
        }
    } else {
        (EditorField::Body, sel)
    }
}

/// Up in the request editor: on the headers tab from the URL to the name,
/// from the first header row to the URL, else up the rows; on the body tab
/// from the URL to the name.
pub open spec fn editor_up(f: EditorField, tab: RequestTab, sel: usize) -> (EditorField, usize) {
    if tab == RequestTab::Headers {
        if f == EditorField::Url {
            (EditorField::Name, sel)
        } else if f == EditorField::Headers && sel == 0 {
            (EditorField::Url, sel)
        } else if f == EditorField::Headers && sel > 0 {
            (f, (sel - 1) as usize)
        } else {
            (f, sel)
        }
    } else if f == EditorField::Url {
        (EditorField::Name, sel)
    } else {
        (f, sel)
    }
}

fn editor_down_exec(f: EditorField, tab: RequestTab, sel: usize, n: usize) -> (r: (EditorField, usize))
    ensures
        r == editor_down(f, tab, sel, n as nat),
{
    if f == EditorField::Name || f == EditorField::Method {
        (EditorField::Url, sel)
    } else if tab == RequestTab::Headers {
        if f == EditorField::Url {
            (EditorField::Headers, sel)
        } else if n > 0 && sel < usize::MAX && sel + 1 < n {
            (f, sel + 1)
        } else {
            (f, sel)
        }
    } else {
        (EditorField::Body, sel)
    }
}

fn editor_up_exec(f: EditorField, tab: RequestTab, sel: usize) -> (r: (EditorField, usize))
    ensures
        r == editor_up(f, tab, sel),
{
    if tab == RequestTab::Headers {
        if f == EditorField::Url {
            (EditorField::Name, sel)
        } else if f == EditorField::Headers && sel == 0 {
            (EditorField::Url, sel)
        } else if f == EditorField::Headers && sel > 0 {
            (f, sel - 1)
        } else {
            (f, sel)
        }
    } else if f == EditorField::Url {
        (EditorField::Name, sel)
    } else {
        (f, sel)
    }
}

/// The response viewer's scroll position (down, across) and tab after a key.
pub open spec fn response_nav(scroll: u16, scroll_x: u16, tab: ResponseTab, k: KeyInput) -> (
    u16,
    u16,
    ResponseTab,
) {
    if k.code == KeyCode::Down {
        (sat_add(scroll, 1), scroll_x, tab)
    } else if k.code == KeyCode::Up {
        (sat_sub(scroll, 1), scroll_x, tab)
    } else if k.code == KeyCode::PageDown || is_char_with(k, 'd', CONTROL) {
        (sat_add(scroll, 10), scroll_x, tab)
    } else if k.code == KeyCode::PageUp || is_char_with(k, 'u', CONTROL) {
        (sat_sub(scroll, 10), scroll_x, tab)
    } else if k.code == KeyCode::Home {
        (0, 0, tab)
    } else if k.code == KeyCode::End {
        (sat_add(scroll, 9999), scroll_x, tab)
    } else if k.code == KeyCode::Right || is_char_with(k, 'l', NO_MODIFIERS) {
        (scroll, sat_add(scroll_x, 4), tab)
    } else if k.code == KeyCode::Left || is_char_with(k, 'h', NO_MODIFIERS) {
        (scroll, sat_sub(scroll_x, 4), tab)
    } else if is_char_with(k, '1', NO_MODIFIERS) {
        (0, 0, ResponseTab::Body)
    } else if is_char_with(k, '2', NO_MODIFIERS) {
        (0, 0, ResponseTab::Headers)
    } else {
        (scroll, scroll_x, tab)
    }
}

fn response_nav_exec(scroll: u16, scroll_x: u16, tab: ResponseTab, k: KeyInput) -> (r: (
    u16,
    u16,
    ResponseTab,
))
    ensures
        r == response_nav(scroll, scroll_x, tab, k),
{
    if k.code == KeyCode::Down {
        (sat_add_exec(scroll, 1), scroll_x, tab)
    } else if k.code == KeyCode::Up {
        (sat_sub_exec(scroll, 1), scroll_x, tab)
    } else if k.code == KeyCode::PageDown || char_with(k, 'd', CONTROL) {
        (sat_add_exec(scroll, 10), scroll_x, tab)
    } else if k.code == KeyCode::PageUp || char_with(k, 'u', CONTROL) {
        (sat_sub_exec(scroll, 10), scroll_x, tab)
    } else if k.code == KeyCode::Home {
        (0, 0, tab)
    } else if k.code == KeyCode::End {
        (sat_add_exec(scroll, 9999), scroll_x, tab)
    } else if k.code == KeyCode::Right || char_with(k, 'l', NO_MODIFIERS) {
        (scroll, sat_add_exec(scroll_x, 4), tab)
    } else if k.code == KeyCode::Left || char_with(k, 'h', NO_MODIFIERS) {
        (scroll, sat_sub_exec(scroll_x, 4), tab)
    } else if char_with(k, '1', NO_MODIFIERS) {
        (0, 0, ResponseTab::Body)
    } else if char_with(k, '2', NO_MODIFIERS) {
        (0, 0, ResponseTab::Headers)
    } else {
        (scroll, scroll_x, tab)
    }
}

/// Whether a key in the request editor quits or moves to another panel.
pub open spec fn is_panel_key(k: KeyInput) -> bool {
    ||| is_char_with(k, 'q', NO_MODIFIERS)
    ||| (k.code == KeyCode::Tab && k.modifiers == NO_MODIFIERS)
    ||| k.code == KeyCode::BackTab
}

fn is_panel_key_exec(k: KeyInput) -> (r: bool)
    ensures
        r == is_panel_key(k),
{
    char_with(k, 'q', NO_MODIFIERS) || (k.code == KeyCode::Tab && k.modifiers == NO_MODIFIERS)
        || k.code == KeyCode::BackTab
}

/// Whether a key in the request editor cycles the method, picks a tab, or
/// moves between the method box and the URL.
pub open spec fn is_tab_key(k: KeyInput, f: EditorField) -> bool {
    ||| is_char_with(k, 'm', NO_MODIFIERS)
    ||| k.code == KeyCode::Char('M')
    ||| is_char_with(k, '1', NO_MODIFIERS)
    ||| is_char_with(k, '2', NO_MODIFIERS)
    ||| (k.code == KeyCode::Left && f == EditorField::Url)
    ||| (k.code == KeyCode::Right && f == EditorField::Method)
}

fn is_tab_key_exec(k: KeyInput, f: EditorField) -> (r: bool)
    ensures
        r == is_tab_key(k, f),
{
    char_with(k, 'm', NO_MODIFIERS) || k.code == KeyCode::Char('M') || char_with(k, '1', NO_MODIFIERS)
        || char_with(k, '2', NO_MODIFIERS) || (k.code == KeyCode::Left && f == EditorField::Url) || (
    k.code == KeyCode::Right && f == EditorField::Method)
}

impl AppView {
    /// The tree selection one item up.
    pub open spec fn nav_up(self) -> AppView {
        AppView {
            tree_selected: if self.tree_selected > 0 {
                (self.tree_selected - 1) as usize
            } else {
                self.tree_selected
            },
            ..self
        }
    }

    /// The tree selection one item down, if there is one.
    pub open spec fn nav_down(self) -> AppView {
        AppView {
            tree_selected: if self.tree_selected + 1 < self.tree_items.len() {
                (self.tree_selected + 1) as usize
            } else {
                self.tree_selected
            },
            ..self
        }
    }

    /// A key in the collections tree.
    #[verifier::opaque]
    pub open spec fn nav_tree_step(self, k: KeyInput) -> (AppView, ActionView) {
        if is_char_with(k, 'q', NO_MODIFIERS) {
            (self, ActionView::Quit)
        } else if k.code == KeyCode::Tab && k.modifiers == NO_MODIFIERS {
            (
                AppView { editor_field: EditorField::Url, focus: FocusPanel::RequestEditor, ..self },
                ActionView::Continue,
            )
        } else if k.code == KeyCode::BackTab {
            (AppView { focus: FocusPanel::ResponseViewer, ..self }, ActionView::Continue)
        } else if k.code == KeyCode::Down {
            (self.nav_down(), ActionView::Continue)
        } else if k.code == KeyCode::Up {
            (self.nav_up(), ActionView::Continue)
        } else if k.code == KeyCode::Home {
            (AppView { tree_selected: 0, ..self }, ActionView::Continue)
        } else if k.code == KeyCode::End {
            (
                if self.tree_items.len() > 0 {
                    AppView { tree_selected: (self.tree_items.len() - 1) as usize, ..self }
                } else {
                    self
                },
                ActionView::Continue,
            )
        } else {
            self.tree_action_step(k)
        }
    }

    /// A key in the collections tree that acts on the selection: Enter
    /// selects, `n` and `N` open the create dialogs, `a` adds a request,
    /// `D` deletes, `R` and F5 reload.
    #[verifier::opaque]
    pub open spec fn tree_action_step(self, k: KeyInput) -> (AppView, ActionView) {
        if k.code == KeyCode::Enter {
            (self.select_item(), ActionView::Continue)
        } else if is_char_with(k, 'n', NO_MODIFIERS) {
            (
                AppView {
                    create_mode: CreateModeView::Collection {
                        input: Seq::empty(),
                        cursor: 0,
                        parent_path: self.create_parent(),
                    },
                    ..self
                },
                ActionView::Continue,
            )
        } else if k.code == KeyCode::Char('N') {
            (
                AppView {
                    create_mode: CreateModeView::Folder {
                        input: Seq::empty(),
                        cursor: 0,
                        parent_path: self.sibling_parent(),
                    },
                    ..self
                },
                ActionView::Continue,
            )
        } else if is_char_with(k, 'a', NO_MODIFIERS) {
            let (a, added) = self.add_request();
            (a, match added {
                Some((ci, ri, p)) => ActionView::AddRequest(ci, ri, p),
                None => ActionView::Continue,
            })
        } else if k.code == KeyCode::Char('D') {
            let (a, deleted) = self.prompt_delete();
            (a, match deleted {
                Some((ci, ri, name)) => ActionView::DeleteRequest(ci, ri, name),
                None => ActionView::Continue,
            })
        } else if k.code == KeyCode::Char('R') || k.code == KeyCode::F(5) {
            (AppView { status_message: "Refreshed"@, ..self }, ActionView::Reload)
        } else {
            (self, ActionView::Continue)
        }
    }

    /// The method cycled forward, with the status line naming it.
    pub open spec fn method_forward(self) -> AppView {
        let m = self.current_request.method.spec_next();
        AppView {
            current_request: crate::models::RequestView { method: m, ..self.current_request },
            status_message: "Method: "@ + m.spec_name(),
            ..self
        }
    }

    /// The method cycled backward, with the status line naming it.
    pub open spec fn method_backward(self) -> AppView {
        let m = self.current_request.method.spec_prev();
        AppView {
            current_request: crate::models::RequestView { method: m, ..self.current_request },
            status_message: "Method: "@ + m.spec_name(),
            ..self
        }
    }

    /// Enter in the request editor: edit the focused field (for the headers,
    /// with the cursor at the end of the selected cell); on the method box,
    /// cycle the method.
    pub open spec fn editor_enter(self) -> AppView {
        if self.editor_field == EditorField::Method {
            self.method_forward()
        } else if self.editor_field == EditorField::Headers {
            AppView {
                header_cursor: if self.header_selected < self.header_rows.len() {
                    if self.header_edit_key {
                        self.header_rows[self.header_selected as int].0.len() as usize
                    } else {
                        self.header_rows[self.header_selected as int].1.len() as usize
                    }
                } else {
                    0
                },
                editing: true,
                ..self
            }
        } else {
            AppView { editing: true, ..self }
        }
    }

    /// `o` in the request editor: on the headers tab, a new empty header row,
    /// selected and being edited.
    pub open spec fn editor_add_header(self) -> AppView {
        if self.request_tab == RequestTab::Headers {
            AppView {
                header_rows: self.header_rows.push((Seq::empty(), Seq::empty())),
                header_selected: self.header_rows.len() as usize,
                header_edit_key: true,
                header_cursor: 0,
                editor_field: EditorField::Headers,
                editing: true,
                ..self
            }
        } else {
            self
        }
    }

    /// `d` in the request editor: on the headers tab, the selected header row
    /// removed.
    pub open spec fn editor_delete_header(self) -> AppView {
        if self.request_tab == RequestTab::Headers && self.header_rows.len() > 0 {
            let rows = self.header_rows.remove(self.header_selected as int);
            AppView {
                header_rows: rows,
                header_selected: if self.header_selected >= rows.len() && self.header_selected > 0 {
                    (self.header_selected - 1) as usize
                } else {
                    self.header_selected
                },
                status_message: "Header deleted"@,
                ..self
            }
        } else {
            self
        }
    }

    /// `n` in the request editor: a new request (still attached to the
    /// collection of the previous one), no response.
    pub open spec fn editor_new_request(self) -> AppView {
        AppView {
            current_request: blank_request(new_request_name()),
            current_request_index: None,
            header_rows: Seq::empty(),
            url_cursor: 0,
            body_cursor: 0,
            response: None,
            status_message: "New request"@,
            ..self
        }
    }

    /// A key in the request editor.
    #[verifier::opaque]
    pub open spec fn nav_editor_step(self, k: KeyInput) -> (AppView, ActionView) {
        if is_panel_key(k) {
            self.editor_panel_step(k)
        } else if is_tab_key(k, self.editor_field) {
            self.editor_tab_step(k)
        } else if k.code == KeyCode::Down || k.code == KeyCode::Up || k.code == KeyCode::Enter {
            self.editor_move_step(k)
        } else {
            self.editor_rows_step(k)
        }
    }

    /// A key in the request editor that quits or moves to another panel.
    #[verifier::opaque]
    pub open spec fn editor_panel_step(self, k: KeyInput) -> (AppView, ActionView) {
        if is_char_with(k, 'q', NO_MODIFIERS) {
            (self, ActionView::Quit)
        } else if k.code == KeyCode::Tab && k.modifiers == NO_MODIFIERS {
            (AppView { focus: FocusPanel::ResponseViewer, ..self }, ActionView::Continue)
        } else if k.code == KeyCode::BackTab {
            (AppView { focus: FocusPanel::CollectionTree, ..self }, ActionView::Continue)
        } else {
            (self, ActionView::Continue)
        }
    }

    /// A key in the request editor that cycles the method, picks a tab or
    /// moves between the method box and the URL.
    #[verifier::opaque]
    pub open spec fn editor_tab_step(self, k: KeyInput) -> (AppView, ActionView) {
        if is_char_with(k, 'm', NO_MODIFIERS) {
            (self.method_forward(), ActionView::Continue)
        } else if k.code == KeyCode::Char('M') {
            (self.method_backward(), ActionView::Continue)
        } else if is_char_with(k, '1', NO_MODIFIERS) {
            (
                AppView { request_tab: RequestTab::Headers, editor_field: EditorField::Headers, ..self },
                ActionView::Continue,
            )
        } else if is_char_with(k, '2', NO_MODIFIERS) {
            (
                AppView { request_tab: RequestTab::Body, editor_field: EditorField::Body, ..self },
                ActionView::Continue,
            )
        } else if k.code == KeyCode::Left && self.editor_field == EditorField::Url {
            (AppView { editor_field: EditorField::Method, ..self }, ActionView::Continue)
        } else if k.code == KeyCode::Right && self.editor_field == EditorField::Method {
            (AppView { editor_field: EditorField::Url, ..self }, ActionView::Continue)
        } else {
            (self, ActionView::Continue)
        }
    }

    /// A key in the request editor that moves between the fields and rows
    /// or starts editing.
    #[verifier::opaque]
    pub open spec fn editor_move_step(self, k: KeyInput) -> (AppView, ActionView) {
        if k.code == KeyCode::Down {
            let (f, s) = editor_down(
                self.editor_field,
                self.request_tab,
                self.header_selected,
                self.header_rows.len(),
            );
            (AppView { editor_field: f, header_selected: s, ..self }, ActionView::Continue)
        } else if k.code == KeyCode::Up {
            let (f, s) = editor_up(self.editor_field, self.request_tab, self.header_selected);
            (AppView { editor_field: f, header_selected: s, ..self }, ActionView::Continue)
        } else if k.code == KeyCode::Enter {
            (self.editor_enter(), ActionView::Continue)
        } else {
            (self, ActionView::Continue)
        }
    }

    /// A key in the request editor that adds or deletes a header row or
    /// starts a new request.
    #[verifier::opaque]
    pub open spec fn editor_rows_step(self, k: KeyInput) -> (AppView, ActionView) {
        if is_char_with(k, 'o', NO_MODIFIERS) {
            (self.editor_add_header(), ActionView::Continue)
        } else if is_char_with(k, 'd', NO_MODIFIERS) {
            (self.editor_delete_header(), ActionView::Continue)
        } else if is_char_with(k, 'n', NO_MODIFIERS) {
            (self.editor_new_request(), ActionView::Continue)
        } else {
            (self, ActionView::Continue)
        }
    }

    /// A key in the response viewer.
    #[verifier::opaque]
    pub open spec fn nav_response_step(self, k: KeyInput) -> (AppView, ActionView) {
        if is_char_with(k, 'q', NO_MODIFIERS) {
            (self, ActionView::Quit)
        } else if k.code == KeyCode::Tab && k.modifiers == NO_MODIFIERS {
            (AppView { focus: FocusPanel::CollectionTree, ..self }, ActionView::Continue)
        } else if k.code == KeyCode::BackTab {
            (AppView { focus: FocusPanel::RequestEditor, ..self }, ActionView::Continue)
        } else {
            let (s, x, t) = response_nav(self.response_scroll, self.response_scroll_x, self.response_tab, k);
            (
                AppView { response_scroll: s, response_scroll_x: x, response_tab: t, ..self },
                ActionView::Continue,
            )
        }
    }
}

impl App {
    /// Cycle the method forward and name it in the status line.
    fn method_forward(&mut self)
        ensures
            final(self)@ == old(self)@.method_forward(),
    {
        self.next_method();
        let mut msg = chars_of("Method: ");
        append(&mut msg, &self.current_request.method.name());
        self.status_message = msg;
    }

    /// Cycle the method backward and name it in the status line.
    fn method_backward(&mut self)
        ensures
            final(self)@ == old(self)@.method_backward(),
    {
        self.prev_method();
        let mut msg = chars_of("Method: ");
        append(&mut msg, &self.current_request.method.name());
        self.status_message = msg;
    }

    fn editor_enter(&mut self)
        ensures
            final(self)@ == old(self)@.editor_enter(),
    {
        if self.editor_field == EditorField::Method {
            self.method_forward();
        } else if self.editor_field == EditorField::Headers {
            let c = self.selected_cell_len();
            self.set_header_cursor_editing(c);
        } else {
            self.set_editing(true);
        }
    }

    /// The length of the edited cell of the selected header row, or zero
    /// when there is no selected row.
    fn selected_cell_len(&self) -> (r: usize)
        ensures
            r == (if self@.header_selected < self@.header_rows.len() {
                if self@.header_edit_key {
                    self@.header_rows[self@.header_selected as int].0.len() as usize
                } else {
                    self@.header_rows[self@.header_selected as int].1.len() as usize
                }
            } else {
                0
            }),
    {
        proof {
            lemma_header_rows_len(self.header_rows@);
        }
        if self.header_selected < self.header_rows.len() {
            proof {
                lemma_header_rows_index(self.header_rows@, self.header_selected as int);
            }
            if self.header_edit_key {
                self.header_rows[self.header_selected].key.len()
            } else {
                self.header_rows[self.header_selected].value.len()
            }
        } else {
            0
        }
    }

    fn set_header_cursor_editing(&mut self, c: usize)
        ensures
            final(self)@ == (AppView { header_cursor: c, editing: true, ..old(self)@ }),
    {
        self.header_cursor = c;
        self.editing = true;
    }

    fn editor_add_header(&mut self)
        ensures
            final(self)@ == old(self)@.editor_add_header(),
    {
        if self.request_tab == RequestTab::Headers {
            self.push_header_row();
        }
    }

    /// A new empty header row, selected and being edited.
    fn push_header_row(&mut self)
        ensures
            final(self)@ == (AppView {
                header_rows: old(self)@.header_rows.push((Seq::empty(), Seq::empty())),
                header_selected: old(self)@.header_rows.len() as usize,
                header_edit_key: true,
                header_cursor: 0,
                editor_field: EditorField::Headers,
                editing: true,
                ..old(self)@
            }),
    {
        let ghost before = self.header_rows@;
        let row = HeaderRow { key: Vec::new(), value: Vec::new() };
        proof {
            lemma_header_rows_push(before, row);
            lemma_header_rows_len(before);
        }
        self.header_rows.push(row);
        self.header_selected = self.header_rows.len() - 1;
        self.header_edit_key = true;
        self.header_cursor = 0;
        self.editor_field = EditorField::Headers;
        self.editing = true;
    }

    fn editor_delete_header(&mut self)
        requires
            old(self)@.header_rows.len() == 0 || old(self)@.header_selected < old(self)@.header_rows.len(),
        ensures
            final(self)@ == old(self)@.editor_delete_header(),
    {
        if self.request_tab == RequestTab::Headers && self.header_row_count() > 0 {
            self.remove_header_row();
        }
    }

    fn editor_new_request(&mut self)
        ensures
            final(self)@ == old(self)@.editor_new_request(),
    {
        self.current_request = crate::models::Request::new("New Request");
        self.current_request_index = None;
        self.header_rows = Vec::new();
        self.url_cursor = 0;
        self.body_cursor = 0;
        self.response = None;
        self.status_message = chars_of("New request");
        proof {
            reveal_strlit("New Request");
            lemma_header_rows_empty(self.header_rows@);
        }
    }

    /// A key in the collections tree.
    pub fn handle_nav_tree(&mut self, key: KeyInput) -> (r: AppAction)
        ensures
            final(self)@ == old(self)@.nav_tree_step(key).0,
            r@ == old(self)@.nav_tree_step(key).1,
    {
        reveal(AppView::nav_tree_step);
        proof {
            crate::app::lemma_items_view(self.tree_items@);
        }
        if char_with(key, 'q', NO_MODIFIERS) {
            AppAction::Quit
        } else if key.code == KeyCode::Tab && key.modifiers == NO_MODIFIERS {
            self.set_focus_field(FocusPanel::RequestEditor, EditorField::Url);
            AppAction::Continue
        } else if key.code == KeyCode::BackTab {
            self.set_focus(FocusPanel::ResponseViewer);
            AppAction::Continue
        } else if key.code == KeyCode::Down {
            self.tree_navigate_down();
            AppAction::Continue
        } else if key.code == KeyCode::Up {
            self.tree_navigate_up();
            AppAction::Continue
        } else if key.code == KeyCode::Home {
            self.set_tree_selected(0);
            AppAction::Continue
        } else if key.code == KeyCode::End {
            proof {
                crate::app::lemma_items_view(self.tree_items@);
            }
            let len = self.tree_items.len();
            if len > 0 {
                self.set_tree_selected(len - 1);
            }
            AppAction::Continue
        } else {
            self.tree_action(key)
        }
    }

    /// A key in the collections tree that acts on the selection.
    fn tree_action(&mut self, key: KeyInput) -> (r: AppAction)
        ensures
            final(self)@ == old(self)@.tree_action_step(key).0,
            r@ == old(self)@.tree_action_step(key).1,
    {
        reveal(AppView::tree_action_step);
        if key.code == KeyCode::Enter {
            self.tree_select_item();
            AppAction::Continue
        } else if char_with(key, 'n', NO_MODIFIERS) {
            let parent_path = self.get_create_parent_path();
            self.set_create_mode(CreateMode::Collection { input: Vec::new(), cursor: 0, parent_path });
            AppAction::Continue
        } else if key.code == KeyCode::Char('N') {
            let parent_path = self.get_sibling_parent_path();
            self.set_create_mode(CreateMode::Folder { input: Vec::new(), cursor: 0, parent_path });
            AppAction::Continue
        } else if char_with(key, 'a', NO_MODIFIERS) {
            match self.add_new_request_to_selected() {
                Some(a) => AppAction::AddRequest(a),
                None => AppAction::Continue,
            }
        } else if key.code == KeyCode::Char('D') {
            match self.prompt_delete_selected() {
                Some(d) => AppAction::DeleteRequest(d),
                None => AppAction::Continue,
            }
        } else if key.code == KeyCode::Char('R') || key.code == KeyCode::F(5) {
            self.set_status(chars_of("Refreshed"));
            AppAction::Reload
        } else {
            AppAction::Continue
        }
    }

    /// A key in the request editor.
    pub fn handle_nav_editor(&mut self, key: KeyInput) -> (r: AppAction)
        requires
            old(self)@.header_rows.len() == 0 || old(self)@.header_selected < old(self)@.header_rows.len(),
        ensures
            final(self)@ == old(self)@.nav_editor_step(key).0,
            r@ == old(self)@.nav_editor_step(key).1,
    {
        reveal(AppView::nav_editor_step);
        if is_panel_key_exec(key) {
            self.editor_panel_key(key)
        } else if is_tab_key_exec(key, self.editor_field) {
            self.editor_tab_key(key)
        } else if key.code == KeyCode::Down || key.code == KeyCode::Up || key.code == KeyCode::Enter {
            self.editor_move_key(key)
        } else {
            self.editor_rows_key(key)
        }
    }

    /// A key in the request editor that quits or moves to another panel.
    fn editor_panel_key(&mut self, key: KeyInput) -> (r: AppAction)
        ensures
            final(self)@ == old(self)@.editor_panel_step(key).0,
            r@ == old(self)@.editor_panel_step(key).1,
    {
        reveal(AppView::editor_panel_step);
        if char_with(key, 'q', NO_MODIFIERS) {
            AppAction::Quit
        } else if key.code == KeyCode::Tab && key.modifiers == NO_MODIFIERS {
            self.set_focus(FocusPanel::ResponseViewer);
            AppAction::Continue
        } else if key.code == KeyCode::BackTab {
            self.set_focus(FocusPanel::CollectionTree);
            AppAction::Continue
        } else {
            AppAction::Continue
        }
    }

    /// A key in the request editor that cycles the method or picks a tab.
    fn editor_tab_key(&mut self, key: KeyInput) -> (r: AppAction)
        ensures
            final(self)@ == old(self)@.editor_tab_step(key).0,
            r@ == old(self)@.editor_tab_step(key).1,
    {
        reveal(AppView::editor_tab_step);
        if char_with(key, 'm', NO_MODIFIERS) {
            self.method_forward();
            AppAction::Continue
        } else if key.code == KeyCode::Char('M') {
            self.method_backward();
            AppAction::Continue
        } else if char_with(key, '1', NO_MODIFIERS) {
            self.set_tab_field(RequestTab::Headers, EditorField::Headers);
            AppAction::Continue
        } else if char_with(key, '2', NO_MODIFIERS) {
            self.set_tab_field(RequestTab::Body, EditorField::Body);
            AppAction::Continue
        } else if key.code == KeyCode::Left && self.editor_field == EditorField::Url {
            self.set_field_selected(EditorField::Method, self.header_selected);
            AppAction::Continue
        } else if key.code == KeyCode::Right && self.editor_field == EditorField::Method {
            self.set_field_selected(EditorField::Url, self.header_selected);
            AppAction::Continue
        } else {
            AppAction::Continue
        }
    }

    /// A key in the request editor that moves between fields and rows or
    /// starts editing.
    fn editor_move_key(&mut self, key: KeyInput) -> (r: AppAction)
        ensures
            final(self)@ == old(self)@.editor_move_step(key).0,
            r@ == old(self)@.editor_move_step(key).1,
    {
        reveal(AppView::editor_move_step);
        if key.code == KeyCode::Down {
            let n = self.header_row_count();
            let (f, s) = editor_down_exec(self.editor_field, self.request_tab, self.header_selected, n);
            self.set_field_selected(f, s);
            AppAction::Continue
        } else if key.code == KeyCode::Up {
            let (f, s) = editor_up_exec(self.editor_field, self.request_tab, self.header_selected);
            self.set_field_selected(f, s);
            AppAction::Continue
        } else if key.code == KeyCode::Enter {
            self.editor_enter();
            AppAction::Continue
        } else {
            AppAction::Continue
        }
    }

    /// A key in the request editor that adds or deletes a header row or
    /// starts a new request.
    fn editor_rows_key(&mut self, key: KeyInput) -> (r: AppAction)
        requires
            old(self)@.header_rows.len() == 0 || old(self)@.header_selected < old(self)@.header_rows.len(),
        ensures
            final(self)@ == old(self)@.editor_rows_step(key).0,
            r@ == old(self)@.editor_rows_step(key).1,
    {
        reveal(AppView::editor_rows_step);
        if char_with(key, 'o', NO_MODIFIERS) {
            self.editor_add_header();
            AppAction::Continue
        } else if char_with(key, 'd', NO_MODIFIERS) {
            self.editor_delete_header();
            AppAction::Continue
        } else if char_with(key, 'n', NO_MODIFIERS) {
            self.editor_new_request();
            AppAction::Continue
        } else {
            AppAction::Continue
        }
    }

    /// A key in the response viewer.
    pub fn handle_nav_response(&mut self, key: KeyInput) -> (r: AppAction)
        ensures
            final(self)@ == old(self)@.nav_response_step(key).0,
            r@ == old(self)@.nav_response_step(key).1,
    {
        reveal(AppView::nav_response_step);
        if char_with(key, 'q', NO_MODIFIERS) {
            AppAction::Quit
        } else if key.code == KeyCode::Tab && key.modifiers == NO_MODIFIERS {
            self.set_focus(FocusPanel::CollectionTree);
            AppAction::Continue
        } else if key.code == KeyCode::BackTab {
            self.set_focus(FocusPanel::RequestEditor);
            AppAction::Continue
        } else {
            let (s, x, t) = response_nav_exec(
                self.response_scroll,
                self.response_scroll_x,
                self.response_tab,
                key,
            );
            self.set_response_view(s, x, t);
            AppAction::Continue
        }
    }
}

} // verus!
