//! Single-field updates of the application state, each with the whole new
//! state stated, for the event handlers to build on.
use vstd::prelude::*;
use crate::app::{App, AppView, ConfirmDelete, CreateMode, EditorField, FocusPanel, RequestTab, ResponseTab};

verus! {

impl App {
    /// The number of header rows.
    pub(crate) fn header_row_count(&self) -> (r: usize)
        ensures
            r == self@.header_rows.len(),
    {
        proof {
            crate::app::lemma_header_rows_view(self.header_rows@);
        }
        self.header_rows.len()
    }

    pub(crate) fn set_focus(&mut self, f: FocusPanel)
        ensures
            final(self)@ == (AppView { focus: f, ..old(self)@ }),
    {
        self.focus = f;
    }

    pub(crate) fn set_focus_field(&mut self, f: FocusPanel, e: EditorField)
        ensures
            final(self)@ == (AppView { focus: f, editor_field: e, ..old(self)@ }),
    {
        self.focus = f;
        self.editor_field = e;
    }

    pub(crate) fn set_focus_editing(&mut self, f: FocusPanel, editing: bool)
        ensures
            final(self)@ == (AppView { focus: f, editing, ..old(self)@ }),
    {
        self.focus = f;
        self.editing = editing;
    }

    pub(crate) fn set_editing(&mut self, editing: bool)
        ensures
            final(self)@ == (AppView { editing, ..old(self)@ }),
    {
        self.editing = editing;
    }

    pub(crate) fn set_tab_field(&mut self, t: RequestTab, e: EditorField)
        ensures
            final(self)@ == (AppView { request_tab: t, editor_field: e, ..old(self)@ }),
    {
        self.request_tab = t;
        self.editor_field = e;
    }

    pub(crate) fn set_field_selected(&mut self, e: EditorField, s: usize)
        ensures
            final(self)@ == (AppView { editor_field: e, header_selected: s, ..old(self)@ }),
    {
        self.editor_field = e;
        self.header_selected = s;
    }

    pub(crate) fn set_tree_selected(&mut self, i: usize)
        ensures
            final(self)@ == (AppView { tree_selected: i, ..old(self)@ }),
    {
        self.tree_selected = i;
    }

    pub(crate) fn set_status(&mut self, m: Vec<char>)
        ensures
            final(self)@ == (AppView { status_message: m@, ..old(self)@ }),
    {
        self.status_message = m;
    }

    pub(crate) fn set_loading(&mut self, m: Vec<char>)
        ensures
            final(self)@ == (AppView { is_loading: true, status_message: m@, ..old(self)@ }),
    {
        self.is_loading = true;
        self.status_message = m;
    }

    pub(crate) fn set_create_mode(&mut self, c: CreateMode)
        ensures
            final(self)@ == (AppView { create_mode: c@, ..old(self)@ }),
    {
        self.create_mode = c;
    }

    pub(crate) fn set_confirm_delete(&mut self, c: ConfirmDelete)
        ensures
            final(self)@ == (AppView { confirm_delete: c@, ..old(self)@ }),
    {
        self.confirm_delete = c;
    }

    pub(crate) fn set_response_view(&mut self, s: u16, x: u16, t: ResponseTab)
        ensures
            final(self)@ == (AppView { response_scroll: s, response_scroll_x: x, response_tab: t, ..old(self)@ }),
    {
        self.response_scroll = s;
        self.response_scroll_x = x;
        self.response_tab = t;
    }

    pub(crate) fn set_response_scroll(&mut self, s: u16)
        ensures
            final(self)@ == (AppView { response_scroll: s, ..old(self)@ }),
    {
        self.response_scroll = s;
    }

    pub(crate) fn set_body_scroll(&mut self, s: u16)
        ensures
            final(self)@ == (AppView { body_scroll: s, ..old(self)@ }),
    {
        self.body_scroll = s;
    }

    pub(crate) fn set_help(&mut self, show: bool, editing: bool)
        ensures
            final(self)@ == (AppView { show_help: show, editing, ..old(self)@ }),
    {
        self.show_help = show;
        self.editing = editing;
    }

    pub(crate) fn set_show_help(&mut self, show: bool)
        ensures
            final(self)@ == (AppView { show_help: show, ..old(self)@ }),
    {
        self.show_help = show;
    }

    pub(crate) fn set_env_editor(&mut self, show: bool, help: bool, editing: bool)
        ensures
            final(self)@ == (AppView { show_env_editor: show, show_help: help, editing, ..old(self)@ }),
    {
        self.show_env_editor = show;
        self.show_help = help;
        self.editing = editing;
    }

    pub(crate) fn set_show_dir_input(&mut self, show: bool)
        ensures
            final(self)@ == (AppView { show_dir_input: show, ..old(self)@ }),
    {
        self.show_dir_input = show;
    }

    pub(crate) fn close_overlays(&mut self)
        ensures
            final(self)@ == (AppView { show_help: false, show_env_editor: false, ..old(self)@ }),
    {
        self.show_help = false;
        self.show_env_editor = false;
    }

    /// The selected header row removed.
    pub(crate) fn remove_header_row(&mut self)
        requires
            old(self)@.header_selected < old(self)@.header_rows.len(),
        ensures
            ({
                let rows = old(self)@.header_rows.remove(old(self)@.header_selected as int);
                final(self)@ == (AppView {
                    header_rows: rows,
                    header_selected: if old(self)@.header_selected >= rows.len()
                        && old(self)@.header_selected > 0 {
                        (old(self)@.header_selected - 1) as usize
                    } else {
                        old(self)@.header_selected
                    },
                    status_message: "Header deleted"@,
                    ..old(self)@
                })
            }),
    {
        let sel = self.header_selected;
        self.remove_row_at(sel);
        let n = self.header_row_count();
        let new_sel = if sel >= n && sel > 0 {
            sel - 1
        } else {
            sel
        };
        self.set_selected_status(new_sel, crate::text::chars_of("Header deleted"));
    }

    fn remove_row_at(&mut self, i: usize)
        requires
            i < old(self)@.header_rows.len(),
        ensures
            final(self)@ == (AppView { header_rows: old(self)@.header_rows.remove(i as int), ..old(self)@ }),
    {
        proof {
            crate::app::lemma_header_rows_len(self.header_rows@);
            crate::app::lemma_header_rows_remove(self.header_rows@, i as int);
        }
        self.header_rows.remove(i);
    }

    fn set_selected_status(&mut self, s: usize, m: Vec<char>)
        ensures
            final(self)@ == (AppView { header_selected: s, status_message: m@, ..old(self)@ }),
    {
        self.header_selected = s;
        self.status_message = m;
    }
}

} // verus!
