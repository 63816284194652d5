//! What the mouse does: the wheel scrolls the panel under it, a left click
//! focuses a panel and picks a tree item.
use vstd::prelude::*;
use crate::app::{App, AppView, EditorField, FocusPanel, Rect, lemma_items_view};
use crate::keys::{ActionView, AppAction, MouseInput, MouseKind, in_rect, rect_contains};
use crate::nav::{sat_add, sat_add_exec, sat_sub, sat_sub_exec};

verus! {

/// The index of the tree item shown on screen row `y`: rows start at
/// `top`, and the list is scrolled so that the selection stays within the
/// panel's height less its border and header rows.
pub open spec fn clicked_index(selected: usize, height: u16, y: u16, top: u16) -> int {
    let visible = sat_sub(height, 4);
    let offset = if selected >= visible {
        selected - visible + 1
    } else {
        0
    };
    offset + (y - top)
}

fn clicked_index_exec(selected: usize, height: u16, y: u16, top: u16) -> (r: u128)
    requires
        y >= top,
    ensures
        r == clicked_index(selected, height, y, top),
{
    let visible = sat_sub_exec(height, 4);
    let offset: u128 = if selected >= visible as usize {
        selected as u128 - visible as u128 + 1
    } else {
        0
    };
    offset + (y - top) as u128
}

impl AppView {
    /// Whether a dialog or overlay is open (the mouse is then ignored).
    pub open spec fn overlay_open(self) -> bool {
        self.show_help || self.show_env_editor || self.show_dir_input || !(self.create_mode is Closed)
            || !(self.confirm_delete is Closed)
    }

    /// The wheel turned down at (`x`, `y`).
    pub open spec fn scroll_down_at(self, x: u16, y: u16) -> AppView {
        if in_rect(self.response_rect, x, y) {
            AppView { response_scroll: sat_add(self.response_scroll, 3), ..self }
        } else if in_rect(self.request_rect, x, y) {
            if self.editing && self.editor_field == EditorField::Body {
                AppView { body_scroll: sat_add(self.body_scroll, 3), ..self }
            } else {
                self
            }
        } else if in_rect(self.collections_rect, x, y) {
            let last = if self.tree_items.len() > 0 {
                self.tree_items.len() - 1
            } else {
                0
            };
            AppView {
                tree_selected: if self.tree_selected + 1 <= last {
                    (self.tree_selected + 1) as usize
                } else {
                    last as usize
                },
                ..self
            }
        } else {
            self
        }
    }

    /// The wheel turned up at (`x`, `y`).
    pub open spec fn scroll_up_at(self, x: u16, y: u16) -> AppView {
        if in_rect(self.response_rect, x, y) {
            AppView { response_scroll: sat_sub(self.response_scroll, 3), ..self }
        } else if in_rect(self.request_rect, x, y) {
            if self.editing && self.editor_field == EditorField::Body {
                AppView { body_scroll: sat_sub(self.body_scroll, 3), ..self }
            } else {
                self
            }
        } else if in_rect(self.collections_rect, x, y) {
            AppView {
                tree_selected: if self.tree_selected > 0 {
                    (self.tree_selected - 1) as usize
                } else {
                    0
                },
                ..self
            }
        } else {
            self
        }
    }

    /// A left click on row `y` of the collections panel: when the panel
    /// already had the input, a click on the selected item acts on it and a
    /// click on another item selects it; otherwise the panel takes the
    /// input and the clicked item is selected.
    pub open spec fn click_tree(self, y: u16) -> AppView {
        let active = self.focus == FocusPanel::CollectionTree && !self.editing;
        let a = if active {
            self
        } else {
            AppView { focus: FocusPanel::CollectionTree, editing: false, ..self }
        };
        if y >= a.tree_items_y {
            let idx = clicked_index(a.tree_selected, a.collections_rect.height, y, a.tree_items_y);
            if idx < a.tree_items.len() {
                if active && a.tree_selected == idx {
                    a.select_item()
                } else {
                    AppView { tree_selected: idx as usize, ..a }
                }
            } else {
                a
            }
        } else {
            a
        }
    }

    /// A left click at (`x`, `y`): the panel under it takes the focus.
    pub open spec fn click_at(self, x: u16, y: u16) -> AppView {
        if in_rect(self.collections_rect, x, y) {
            self.click_tree(y)
        } else if in_rect(self.request_rect, x, y) {
            AppView { focus: FocusPanel::RequestEditor, editing: false, ..self }
        } else if in_rect(self.response_rect, x, y) {
            AppView { focus: FocusPanel::ResponseViewer, ..self }
        } else {
            self
        }
    }

    /// A mouse event; ignored while a dialog or overlay is open.
    pub open spec fn mouse_step(self, m: MouseInput) -> AppView {
        if self.overlay_open() {
            self
        } else {
            match m.kind {
                MouseKind::ScrollDown => self.scroll_down_at(m.column, m.row),
                MouseKind::ScrollUp => self.scroll_up_at(m.column, m.row),
                MouseKind::LeftDown => self.click_at(m.column, m.row),
                MouseKind::Other => self,
            }
        }
    }
}

impl App {
    fn scroll_down_at(&mut self, x: u16, y: u16)
        ensures
            final(self)@ == old(self)@.scroll_down_at(x, y),
    {
        proof {
            lemma_items_view(self.tree_items@);
        }
        if rect_contains(self.response_rect, x, y) {
            let s = sat_add_exec(self.response_scroll, 3);
            self.set_response_scroll(s);
        } else if rect_contains(self.request_rect, x, y) {
            if self.editing && self.editor_field == EditorField::Body {
                let s = sat_add_exec(self.body_scroll, 3);
                self.set_body_scroll(s);
            }
        } else if rect_contains(self.collections_rect, x, y) {
            let len = self.tree_items.len();
            let last = if len > 0 {
                len - 1
            } else {
                0
            };
            let next = if self.tree_selected < last {
                self.tree_selected + 1
            } else {
                last
            };
            self.set_tree_selected(next);
        }
    }

    fn scroll_up_at(&mut self, x: u16, y: u16)
        ensures
            final(self)@ == old(self)@.scroll_up_at(x, y),
    {
        if rect_contains(self.response_rect, x, y) {
            let s = sat_sub_exec(self.response_scroll, 3);
            self.set_response_scroll(s);
        } else if rect_contains(self.request_rect, x, y) {
            if self.editing && self.editor_field == EditorField::Body {
                let s = sat_sub_exec(self.body_scroll, 3);
                self.set_body_scroll(s);
            }
        } else if rect_contains(self.collections_rect, x, y) {
            let next = if self.tree_selected > 0 {
                self.tree_selected - 1
            } else {
                0
            };
            self.set_tree_selected(next);
        }
    }

    fn click_tree(&mut self, y: u16)
        ensures
            final(self)@ == old(self)@.click_tree(y),
    {
        let active = self.focus == FocusPanel::CollectionTree && !self.editing;
        if !active {
            self.set_focus_editing(FocusPanel::CollectionTree, false);
        }
        proof {
            lemma_items_view(self.tree_items@);
        }
        if y >= self.tree_items_y {
            let idx = clicked_index_exec(
                self.tree_selected,
                self.collections_rect.height,
                y,
                self.tree_items_y,
            );
            if idx < self.tree_items.len() as u128 {
                if active && self.tree_selected as u128 == idx {
                    self.tree_select_item();
                } else {
                    self.set_tree_selected(idx as usize);
                }
            }
        }
    }

    fn click_at(&mut self, x: u16, y: u16)
        ensures
            final(self)@ == old(self)@.click_at(x, y),
    {
        if rect_contains(self.collections_rect, x, y) {
            self.click_tree(y);
        } else if rect_contains(self.request_rect, x, y) {
            self.set_focus_editing(FocusPanel::RequestEditor, false);
        } else if rect_contains(self.response_rect, x, y) {
            self.set_focus(FocusPanel::ResponseViewer);
        }
    }
}

/// Handle a mouse event.
pub fn handle_mouse(app: &mut App, mouse: MouseInput) -> (r: AppAction)
    ensures
        final(app)@ == old(app)@.mouse_step(mouse),
        r@ == ActionView::Continue,
        old(app)@.wf() ==> final(app)@.wf(),
{
    proof {
        if app@.wf() {
            crate::laws::law_mouse_step_keeps_wf(app@, mouse);
        }
    }
    mouse_step_exec(app, mouse)
}

fn mouse_step_exec(app: &mut App, mouse: MouseInput) -> (r: AppAction)
    ensures
        final(app)@ == old(app)@.mouse_step(mouse),
        r@ == ActionView::Continue,
{
    if app.show_help || app.show_env_editor || app.show_dir_input || app.create_mode.is_active()
        || app.confirm_delete.is_active() {
        return AppAction::Continue;
    }
    match mouse.kind {
        MouseKind::ScrollDown => app.scroll_down_at(mouse.column, mouse.row),
        MouseKind::ScrollUp => app.scroll_up_at(mouse.column, mouse.row),
        MouseKind::LeftDown => app.click_at(mouse.column, mouse.row),
        MouseKind::Other => {},
    }
    AppAction::Continue
}

} // verus!
