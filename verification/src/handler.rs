//! What a key press does: the shortcuts that work everywhere, then the
//! dialog, overlay, text field or panel that has the input.
use vstd::prelude::*;
use crate::app::{App, AppView, ConfirmDeleteView, CreateModeView, EditorField, FocusPanel};
use crate::keys::{ActionView, AppAction, CONTROL, KeyCode, KeyInput, NO_MODIFIERS, char_with, is_char_with};
use crate::text::{chars_of, str_then};

verus! {

impl AppView {
    /// The change-root dialog toggled by Ctrl+O; opening it fills it with
    /// the current root and closes help and the environment editor.
    pub open spec fn toggle_dir_dialog(self) -> AppView {
        if !self.show_dir_input {
            AppView {
                dir_input: self.collections_root.text(),
                dir_input_cursor: self.collections_root.text().len() as usize,
                show_dir_input: true,
                show_help: false,
                show_env_editor: false,
                ..self
            }
        } else {
            AppView { show_dir_input: false, ..self }
        }
    }

    /// Ctrl+S: in the environment editor the environment is set from the
    /// rows (and its file is to be written); elsewhere the edited request is
    /// stored in its collection (whose file is to be written), or the
    /// status line tells why it could not be.
    pub open spec fn save_step(self) -> (AppView, ActionView) {
        if self.show_env_editor {
            (self.saved_env(), ActionView::WriteEnv)
        } else {
            let (a, r) = self.store_request();
            match r {
                Err(e) => (AppView { status_message: "Error saving: "@ + e, ..a }, ActionView::Continue),
                Ok(Some(i)) => (a, ActionView::WriteCollection(i)),
                Ok(None) => (a, ActionView::Continue),
            }
        }
    }

    /// A key while a text field is edited: Esc ends editing, Enter in the
    /// URL sends the request, other keys go to the focused field.
    #[verifier::opaque]
    pub open spec fn text_input_step(self, k: KeyInput) -> (AppView, ActionView) {
        if k.code == KeyCode::Esc {
            (AppView { editing: false, ..self }, ActionView::Continue)
        } else if k.code == KeyCode::Enter && self.editor_field == EditorField::Url {
            (
                AppView {
                    is_loading: true,
                    status_message: "Sending request..."@,
                    editing: false,
                    ..self
                },
                ActionView::SendRequest,
            )
        } else {
            (
                match self.editor_field {
                    EditorField::Name => self.edit_name_step(k),
                    EditorField::Url => self.edit_url_step(k),
                    EditorField::Headers => self.edit_header_step(k),
                    EditorField::Body => self.edit_body_step(k),
                    EditorField::Method => AppView { editing: false, ..self },
                },
                ActionView::Continue,
            )
        }
    }

    /// A key that no shortcut took: it goes to the open dialog or overlay
    /// (change root, help, environment editor, delete confirmation, create),
    /// else to the text field being edited, else to the focused panel.
    #[verifier::opaque]
    pub open spec fn routed_key_step(self, k: KeyInput) -> (AppView, ActionView) {
        if self.show_dir_input {
            self.dir_key_step(k)
        } else if self.show_help {
            (AppView { show_help: false, ..self }, ActionView::Continue)
        } else if self.show_env_editor {
            (self.env_key_step(k), ActionView::Continue)
        } else if !(self.confirm_delete is Closed) {
            self.confirm_key_step(k)
        } else if !(self.create_mode is Closed) {
            self.create_key_step(k)
        } else if self.editing {
            self.text_input_step(k)
        } else {
            match self.focus {
                FocusPanel::CollectionTree => self.nav_tree_step(k),
                FocusPanel::RequestEditor => self.nav_editor_step(k),
                FocusPanel::ResponseViewer => self.nav_response_step(k),
            }
        }
    }

    /// A key press: Ctrl+C quits; W, E and V (when not editing) focus the
    /// collections, the editor or the response; Ctrl+O toggles the
    /// change-root dialog; ? toggles help; Ctrl+S saves; e (when not
    /// editing) toggles the environment editor; F5 sends the request, and so
    /// does r in any panel when nothing is edited and no dialog or overlay is
    /// open; any other key is routed on.
    #[verifier::opaque]
    pub open spec fn key_step(self, k: KeyInput) -> (AppView, ActionView) {
        if is_char_with(k, 'c', CONTROL) {
            (self, ActionView::Quit)
        } else if k.code == KeyCode::Char('W') && !self.editing {
            (AppView { focus: FocusPanel::CollectionTree, ..self }, ActionView::Continue)
        } else if k.code == KeyCode::Char('E') && !self.editing {
            (AppView { focus: FocusPanel::RequestEditor, ..self }, ActionView::Continue)
        } else if k.code == KeyCode::Char('V') && !self.editing {
            (AppView { focus: FocusPanel::ResponseViewer, ..self }, ActionView::Continue)
        } else if is_char_with(k, 'o', CONTROL) {
            (self.toggle_dir_dialog(), ActionView::Continue)
        } else if k.code == KeyCode::Char('?') && !self.show_env_editor && !self.show_dir_input {
            (AppView { show_help: !self.show_help, editing: false, ..self }, ActionView::Continue)
        } else if is_char_with(k, 's', CONTROL) {
            self.save_step()
        } else if is_char_with(k, 'e', NO_MODIFIERS) && !self.editing && !self.show_dir_input {
            (
                AppView {
                    show_env_editor: !self.show_env_editor,
                    show_help: false,
                    editing: false,
                    ..self
                },
                ActionView::Continue,
            )
        } else if k.code == KeyCode::F(5) && !self.show_env_editor && !self.show_dir_input {
            (
                AppView { is_loading: true, status_message: "Sending request..."@, ..self },
                ActionView::SendRequest,
            )
        } else if is_char_with(k, 'r', NO_MODIFIERS) && !self.editing && !self.show_help
            && !self.show_env_editor && !self.show_dir_input && self.confirm_delete is Closed
            && self.create_mode is Closed {
            (
                AppView { is_loading: true, status_message: "Sending request..."@, ..self },
                ActionView::SendRequest,
            )
        } else {
            self.routed_key_step(k)
        }
    }
}

impl App {
    /// Whether the state is well formed (see `AppView::wf`): the handlers
    /// rely on it.
    pub fn is_wf(&self) -> (r: bool)
        ensures
            r == self@.wf(),
    {
        proof {
            crate::app::lemma_header_rows_len(self.header_rows@);
            crate::app::lemma_env_rows_view(self.env_rows@);
        }
        let rows_ok = self.header_rows.len() == 0 || self.header_selected < self.header_rows.len();
        let env_ok = self.env_rows.len() == 0 || self.env_selected < self.env_rows.len();
        let create_ok = match &self.create_mode {
            crate::app::CreateMode::Folder { input, cursor, .. } => *cursor <= input.len(),
            crate::app::CreateMode::Collection { input, cursor, .. } => *cursor <= input.len(),
            crate::app::CreateMode::Closed => true,
        };
        rows_ok && env_ok && create_ok && self.dir_input_cursor <= self.dir_input.len()
    }

    fn toggle_dir_dialog(&mut self)
        ensures
            final(self)@ == old(self)@.toggle_dir_dialog(),
    {
        if !self.show_dir_input {
            self.open_dir_input();
            self.close_overlays();
        } else {
            self.set_show_dir_input(false);
        }
    }

    fn save_key(&mut self) -> (r: AppAction)
        ensures
            final(self)@ == old(self)@.save_step().0,
            r@ == old(self)@.save_step().1,
    {
        if self.show_env_editor {
            self.save_env();
            AppAction::WriteEnv
        } else {
            match self.save_current_request() {
                Err(e) => {
                    self.set_status(str_then("Error saving: ", &e));
                    AppAction::Continue
                },
                Ok(Some(i)) => AppAction::WriteCollection(i),
                Ok(None) => AppAction::Continue,
            }
        }
    }

    /// A key while a text field is being edited.
    pub fn handle_text_input(&mut self, key: KeyInput) -> (r: AppAction)
        ensures
            final(self)@ == old(self)@.text_input_step(key).0,
            r@ == old(self)@.text_input_step(key).1,
    {
        reveal(AppView::text_input_step);
        if key.code == KeyCode::Esc {
            self.set_editing(false);
            AppAction::Continue
        } else if key.code == KeyCode::Enter && self.editor_field == EditorField::Url {
            self.set_loading(chars_of("Sending request..."));
            self.set_editing(false);
            AppAction::SendRequest
        } else {
            match self.editor_field {
                EditorField::Name => self.edit_name(key),
                EditorField::Url => self.edit_url(key),
                EditorField::Headers => self.edit_header(key),
                EditorField::Body => self.edit_body(key),
                EditorField::Method => self.set_editing(false),
            }
            AppAction::Continue
        }
    }

    fn route_key(&mut self, key: KeyInput) -> (r: AppAction)
        requires
            old(self)@.wf(),
        ensures
            final(self)@ == old(self)@.routed_key_step(key).0,
            r@ == old(self)@.routed_key_step(key).1,
    {
        reveal(AppView::routed_key_step);
        if self.show_dir_input {
            self.handle_dir_input(key)
        } else if self.show_help {
            self.set_show_help(false);
            AppAction::Continue
        } else if self.show_env_editor {
            self.handle_env_input(key)
        } else if self.confirm_delete.is_active() {
            self.handle_confirm_delete(key)
        } else if self.create_mode.is_active() {
            self.handle_create_input(key)
        } else if self.editing {
            self.handle_text_input(key)
        } else {
            match self.focus {
                FocusPanel::CollectionTree => self.handle_nav_tree(key),
                FocusPanel::RequestEditor => self.handle_nav_editor(key),
                FocusPanel::ResponseViewer => self.handle_nav_response(key),
            }
        }
    }
}

/// Handle a key press: update the state and say what the event loop is to
/// do next.
pub fn handle_key(app: &mut App, key: KeyInput) -> (r: AppAction)
    requires
        old(app)@.wf(),
    ensures
        final(app)@ == old(app)@.key_step(key).0,
        r@ == old(app)@.key_step(key).1,
        final(app)@.wf(),
{
    proof {
        crate::laws::law_key_step_keeps_wf(app@, key);
    }
    key_step_exec(app, key)
}

fn key_step_exec(app: &mut App, key: KeyInput) -> (r: AppAction)
    requires
        old(app)@.wf(),
    ensures
        final(app)@ == old(app)@.key_step(key).0,
        r@ == old(app)@.key_step(key).1,
{
    reveal(AppView::key_step);
    if char_with(key, 'c', CONTROL) {
        AppAction::Quit
    } else if key.code == KeyCode::Char('W') && !app.editing {
        app.set_focus(FocusPanel::CollectionTree);
        AppAction::Continue
    } else if key.code == KeyCode::Char('E') && !app.editing {
        app.set_focus(FocusPanel::RequestEditor);
        AppAction::Continue
    } else if key.code == KeyCode::Char('V') && !app.editing {
        app.set_focus(FocusPanel::ResponseViewer);
        AppAction::Continue
    } else if char_with(key, 'o', CONTROL) {
        app.toggle_dir_dialog();
        AppAction::Continue
    } else if key.code == KeyCode::Char('?') && !app.show_env_editor && !app.show_dir_input {
        let show = !app.show_help;
        app.set_help(show, false);
        AppAction::Continue
    } else if char_with(key, 's', CONTROL) {
        app.save_key()
    } else if char_with(key, 'e', NO_MODIFIERS) && !app.editing && !app.show_dir_input {
        let show = !app.show_env_editor;
        app.set_env_editor(show, false, false);
        AppAction::Continue
    } else if key.code == KeyCode::F(5) && !app.show_env_editor && !app.show_dir_input {
        app.set_loading(chars_of("Sending request..."));
        AppAction::SendRequest
    } else if char_with(key, 'r', NO_MODIFIERS) && !app.editing && !app.show_help
        && !app.show_env_editor && !app.show_dir_input && !app.confirm_delete.is_active()
        && !app.create_mode.is_active() {
        app.set_loading(chars_of("Sending request..."));
        AppAction::SendRequest
    } else {
        app.route_key(key)
    }
}

} // verus!
