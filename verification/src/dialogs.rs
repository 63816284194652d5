//! Keys in the dialogs: create, environment editor, change root, and
//! delete confirmation.
use vstd::prelude::*;
use crate::app::{
    App, AppView, ConfirmDelete, ConfirmDeleteView, CreateMode, CreateModeView, EnvRow, env_rows_view,
    lemma_env_rows_view,
};
use crate::keys::{
    ActionView, AppAction, CONTROL, KeyCode, KeyInput, NO_MODIFIERS, char_with, is_char_with, typed,
    typed_char,
};
use crate::text::{chars_of, has_prefix, lex_le, trim};
use crate::typing::{is_line_key, line_edit, line_edit_exec};

verus! {

/// The create dialog after a line-editing key: its text and cursor edited.
pub open spec fn create_mode_edit(cm: CreateModeView, k: KeyInput) -> CreateModeView {
    match cm {
        CreateModeView::Folder { input, cursor, parent_path } => {
            let (t, c) = line_edit(input, cursor, k);
            CreateModeView::Folder { input: t, cursor: c, parent_path }
        },
        CreateModeView::Collection { input, cursor, parent_path } => {
            let (t, c) = line_edit(input, cursor, k);
            CreateModeView::Collection { input: t, cursor: c, parent_path }
        },
        CreateModeView::Closed => CreateModeView::Closed,
    }
}

/// A key in the environment editor: a cell of the selected row is edited,
/// or the rows are navigated, added to or deleted from.  The state is the rows, the selected row,
/// whether the key column is edited, the cursor, whether a cell is being
/// edited, and whether the editor is shown.
#[verifier::opaque]
pub open spec fn env_key(
    rows: Seq<(Seq<char>, Seq<char>)>,
    sel: usize,
    ek: bool,
    cur: usize,
    editing: bool,
    show: bool,
    k: KeyInput,
) -> (Seq<(Seq<char>, Seq<char>)>, usize, bool, usize, bool, bool) {
    let has_row = sel < rows.len();
    let row = rows[sel as int];
    if editing {
        let field = if ek {
            row.0
        } else {
            row.1
        };
        if k.code == KeyCode::Esc || k.code == KeyCode::Enter {
            (rows, sel, ek, cur, false, show)
        } else if k.code == KeyCode::Tab {
            let ek2 = !ek;
            (rows, sel, ek2, if has_row {
                if ek2 {
                    row.0.len() as usize
                } else {
                    row.1.len() as usize
                }
            } else {
                cur
            }, editing, show)
        } else if typed(k) is Some || k.code == KeyCode::Backspace || k.code == KeyCode::Delete {
            if has_row {
                let (t, c) = line_edit(field, cur, k);
                (rows.update(sel as int, if ek {
                    (t, row.1)
                } else {
                    (row.0, t)
                }), sel, ek, c, editing, show)
            } else {
                (rows, sel, ek, cur, editing, show)
            }
        } else if k.code == KeyCode::Left {
            (rows, sel, ek, if cur > 0 {
                (cur - 1) as usize
            } else {
                cur
            }, editing, show)
        } else if k.code == KeyCode::Right {
            (rows, sel, ek, if has_row && cur < field.len() {
                (cur + 1) as usize
            } else {
                cur
            }, editing, show)
        } else if k.code == KeyCode::Home {
            (rows, sel, ek, 0, editing, show)
        } else if k.code == KeyCode::End {
            (rows, sel, ek, if has_row {
                field.len() as usize
            } else {
                cur
            }, editing, show)
        } else {
            (rows, sel, ek, cur, editing, show)
        }
    } else {
        if k.code == KeyCode::Esc || is_char_with(k, 'e', NO_MODIFIERS) {
            (rows, sel, ek, cur, editing, false)
        } else if k.code == KeyCode::Up {
            (rows, if sel > 0 {
                (sel - 1) as usize
            } else {
                sel
            }, ek, cur, editing, show)
        } else if k.code == KeyCode::Down {
            (rows, if sel + 1 < rows.len() {
                (sel + 1) as usize
            } else {
                sel
            }, ek, cur, editing, show)
        } else if k.code == KeyCode::Enter || k.code == KeyCode::Tab {
            if rows.len() > 0 {
                let ek2 = k.code == KeyCode::Enter;
                (rows, sel, ek2, if has_row {
                    if ek2 {
                        row.0.len() as usize
                    } else {
                        row.1.len() as usize
                    }
                } else {
                    cur
                }, true, show)
            } else {
                (rows, sel, ek, cur, editing, show)
            }
        } else if is_char_with(k, 'o', NO_MODIFIERS) {
            (rows.push((Seq::empty(), Seq::empty())), rows.len() as usize, true, 0, true, show)
        } else if is_char_with(k, 'd', NO_MODIFIERS) {
            if rows.len() > 0 {
                let r2 = rows.remove(sel as int);
                (r2, if sel >= r2.len() && sel > 0 {
                    (sel - 1) as usize
                } else {
                    sel
                }, ek, cur, editing, show)
            } else {
                (rows, sel, ek, cur, editing, show)
            }
        } else {
            (rows, sel, ek, cur, editing, show)
        }
    }
}

/// Edit the key or value cell of row `sel` with a line key.
fn env_edit_cell(rows: &mut Vec<EnvRow>, sel: usize, ek: bool, cur: &mut usize, k: KeyInput)
    requires
        sel < old(rows).len(),
    ensures
        ({
            let row = env_rows_view(old(rows)@)[sel as int];
            let field = if ek {
                row.0
            } else {
                row.1
            };
            let (t, c) = line_edit(field, *old(cur), k);
            &&& env_rows_view(final(rows)@) == env_rows_view(old(rows)@).update(
                sel as int,
                if ek {
                    (t, row.1)
                } else {
                    (row.0, t)
                },
            )
            &&& *final(cur) == c
        }),
{
    let ghost before = rows@;
    let mut row = rows.remove(sel);
    if ek {
        line_edit_exec(&mut row.key, cur, k);
    } else {
        line_edit_exec(&mut row.value, cur, k);
    }
    rows.insert(sel, row);
    proof {
        lemma_env_rows_view(before);
        lemma_env_rows_view(rows@);
        assert(env_rows_view(rows@) =~= env_rows_view(before).update(
            sel as int,
            (row.key@, row.value@),
        ));
    }
}

/// The length of the key or value cell of row `sel`.
fn env_cell_len(rows: &Vec<EnvRow>, sel: usize, ek: bool) -> (r: usize)
    requires
        sel < rows.len(),
    ensures
        r == (if ek {
            env_rows_view(rows@)[sel as int].0.len()
        } else {
            env_rows_view(rows@)[sel as int].1.len()
        }),
{
    proof {
        lemma_env_rows_view(rows@);
    }
    if ek {
        rows[sel].key.len()
    } else {
        rows[sel].value.len()
    }
}

/// Apply a key to the environment editor's state.
pub fn env_key_exec(
    rows: &mut Vec<EnvRow>,
    sel: &mut usize,
    ek: &mut bool,
    cur: &mut usize,
    editing: &mut bool,
    show: &mut bool,
    k: KeyInput,
)
    requires
        old(rows).len() == 0 || *old(sel) < old(rows).len(),
    ensures
        (env_rows_view(final(rows)@), *final(sel), *final(ek), *final(cur), *final(editing), *final(show))
            == env_key(
            env_rows_view(old(rows)@),
            *old(sel),
            *old(ek),
            *old(cur),
            *old(editing),
            *old(show),
            k,
        ),
{
    reveal(env_key);
    proof {
        lemma_env_rows_view(rows@);
    }
    let s = *sel;
    let has_row = s < rows.len();
    if *editing {
        if k.code == KeyCode::Esc || k.code == KeyCode::Enter {
            *editing = false;
        } else if k.code == KeyCode::Tab {
            *ek = !*ek;
            if has_row {
                *cur = env_cell_len(rows, s, *ek);
            }
        } else if typed_char(k).is_some() || k.code == KeyCode::Backspace || k.code
            == KeyCode::Delete {
            if has_row {
                env_edit_cell(rows, s, *ek, cur, k);
            }
        } else if k.code == KeyCode::Left {
            if *cur > 0 {
                *cur = *cur - 1;
            }
        } else if k.code == KeyCode::Right {
            if has_row {
                let len = env_cell_len(rows, s, *ek);
                if *cur < len {
                    *cur = *cur + 1;
                }
            }
        } else if k.code == KeyCode::Home {
            *cur = 0;
        } else if k.code == KeyCode::End {
            if has_row {
                *cur = env_cell_len(rows, s, *ek);
            }
        }
    } else {
        if k.code == KeyCode::Esc || char_with(k, 'e', NO_MODIFIERS) {
            *show = false;
        } else if k.code == KeyCode::Up {
            if s > 0 {
                *sel = s - 1;
            }
        } else if k.code == KeyCode::Down {
            if s < usize::MAX && s + 1 < rows.len() {
                *sel = s + 1;
            }
        } else if k.code == KeyCode::Enter || k.code == KeyCode::Tab {
            if rows.len() > 0 {
                *ek = k.code == KeyCode::Enter;
                if has_row {
                    *cur = env_cell_len(rows, s, *ek);
                }
                *editing = true;
            }
        } else if char_with(k, 'o', NO_MODIFIERS) {
            let ghost before = rows@;
            rows.push(EnvRow { key: Vec::new(), value: Vec::new() });
            *sel = rows.len() - 1;
            *ek = true;
            *cur = 0;
            *editing = true;
            proof {
                lemma_env_rows_view(before);
                lemma_env_rows_view(rows@);
                assert(env_rows_view(rows@) =~= env_rows_view(before).push((Seq::empty(), Seq::empty())));
            }
        } else if char_with(k, 'd', NO_MODIFIERS) {
            if rows.len() > 0 {
                let ghost before = rows@;
                rows.remove(s);
                if s >= rows.len() && s > 0 {
                    *sel = s - 1;
                }
                proof {
                    lemma_env_rows_view(before);
                    lemma_env_rows_view(rows@);
                    assert(env_rows_view(rows@) =~= env_rows_view(before).remove(s as int));
                }
            }
        }
    }
}

/// The smallest of the paths of the directory entries whose name starts
/// with `prefix`, if any.
pub open spec fn is_completion(
    entries: Seq<(Seq<char>, Seq<char>)>,
    prefix: Seq<char>,
    choice: Seq<char>,
) -> bool {
    &&& exists|i: int|
        0 <= i < entries.len() && has_prefix(entries[i].0, prefix) && entries[i].1 == choice
    &&& forall|j: int|
        0 <= j < entries.len() && has_prefix(entries[j].0, prefix) ==> lex_le(
            choice,
            #[trigger] entries[j].1,
        )
}

impl AppView {
    /// A key in the create dialog: Esc closes it, Enter asks for what it
    /// names to be created, line keys edit its text.
    pub open spec fn create_key_step(self, k: KeyInput) -> (AppView, ActionView) {
        if k.code == KeyCode::Esc {
            (AppView { create_mode: CreateModeView::Closed, ..self }, ActionView::Continue)
        } else if k.code == KeyCode::Enter {
            let (a, plan) = self.create_plan();
            (a, ActionView::Create(plan))
        } else if is_line_key(k) {
            (AppView { create_mode: create_mode_edit(self.create_mode, k), ..self }, ActionView::Continue)
        } else {
            (self, ActionView::Continue)
        }
    }

    /// A key in the environment editor.
    pub open spec fn env_key_step(self, k: KeyInput) -> AppView {
        let (rows, sel, ek, cur, editing, show) = env_key(
            self.env_rows,
            self.env_selected,
            self.env_edit_key,
            self.env_cursor,
            self.editing,
            self.show_env_editor,
            k,
        );
        AppView {
            env_rows: rows,
            env_selected: sel,
            env_edit_key: ek,
            env_cursor: cur,
            editing,
            show_env_editor: show,
            ..self
        }
    }

    /// A key in the change-root dialog: Esc or Ctrl+O cancel it, Enter
    /// asks to switch to the typed root, Tab asks for a completion, line
    /// keys edit the text.
    pub open spec fn dir_key_step(self, k: KeyInput) -> (AppView, ActionView) {
        if k.code == KeyCode::Esc || is_char_with(k, 'o', CONTROL) {
            (
                AppView {
                    show_dir_input: false,
                    dir_input: Seq::empty(),
                    dir_input_cursor: 0,
                    status_message: "Directory change cancelled"@,
                    ..self
                },
                ActionView::Continue,
            )
        } else if k.code == KeyCode::Enter {
            (self.dir_input_taken(), ActionView::ChangeRoot(trim(self.dir_input)))
        } else if k.code == KeyCode::Tab {
            (self, ActionView::CompleteDir)
        } else if is_line_key(k) {
            let (t, c) = line_edit(self.dir_input, self.dir_input_cursor, k);
            (AppView { dir_input: t, dir_input_cursor: c, ..self }, ActionView::Continue)
        } else {
            (self, ActionView::Continue)
        }
    }

    /// A key in the delete confirmation: Esc, n or N cancel, Enter, y or Y
    /// confirm (the path to remove is handed back).
    pub open spec fn confirm_key_step(self, k: KeyInput) -> (AppView, ActionView) {
        if k.code == KeyCode::Esc || k.code == KeyCode::Char('n') || k.code == KeyCode::Char('N') {
            (
                AppView {
                    confirm_delete: ConfirmDeleteView::Closed,
                    status_message: "Delete cancelled"@,
                    ..self
                },
                ActionView::Continue,
            )
        } else if k.code == KeyCode::Enter || k.code == KeyCode::Char('y') || k.code == KeyCode::Char(
            'Y',
        ) {
            let (a, p) = self.confirm_delete_step();
            (a, match p {
                Some(p) => ActionView::DeletePath(p),
                None => ActionView::Continue,
            })
        } else {
            (self, ActionView::Continue)
        }
    }

    /// The change-root text replaced by the completion chosen from the
    /// directory entries, when one matches.
    pub open spec fn completed(self, choice: Option<Seq<char>>) -> AppView {
        match choice {
            Some(c) => AppView { dir_input: c, dir_input_cursor: c.len() as usize, ..self },
            None => self,
        }
    }
}

impl App {
    /// A key in the create dialog.
    pub fn handle_create_input(&mut self, key: KeyInput) -> (r: AppAction)
        ensures
            final(self)@ == old(self)@.create_key_step(key).0,
            r@ == old(self)@.create_key_step(key).1,
    {
        if key.code == KeyCode::Esc {
            self.create_mode = CreateMode::Closed;
            AppAction::Continue
        } else if key.code == KeyCode::Enter {
            AppAction::Create(self.confirm_create())
        } else if typed_char(key).is_some() || key.code == KeyCode::Backspace || key.code
            == KeyCode::Delete || key.code == KeyCode::Left || key.code == KeyCode::Right
            || key.code == KeyCode::Home || key.code == KeyCode::End {
            match self.create_mode.input_mut() {
                Some((input, cursor)) => {
                    line_edit_exec(input, cursor, key);
                },
                None => {},
            }
            AppAction::Continue
        } else {
            AppAction::Continue
        }
    }

    /// A key in the environment editor.
    pub fn handle_env_input(&mut self, key: KeyInput) -> (r: AppAction)
        requires
            old(self)@.env_rows.len() == 0 || old(self)@.env_selected < old(self)@.env_rows.len(),
        ensures
            final(self)@ == old(self)@.env_key_step(key),
            r@ == ActionView::Continue,
    {
        proof {
            lemma_env_rows_view(self.env_rows@);
        }
        env_key_exec(
            &mut self.env_rows,
            &mut self.env_selected,
            &mut self.env_edit_key,
            &mut self.env_cursor,
            &mut self.editing,
            &mut self.show_env_editor,
            key,
        );
        AppAction::Continue
    }

    /// Close and empty the change-root dialog.
    fn cancel_dir_input(&mut self)
        ensures
            final(self)@ == (AppView {
                show_dir_input: false,
                dir_input: Seq::empty(),
                dir_input_cursor: 0,
                status_message: "Directory change cancelled"@,
                ..old(self)@
            }),
    {
        self.show_dir_input = false;
        self.dir_input = Vec::new();
        self.dir_input_cursor = 0;
        self.status_message = chars_of("Directory change cancelled");
    }

    /// A key in the change-root dialog.
    pub fn handle_dir_input(&mut self, key: KeyInput) -> (r: AppAction)
        ensures
            final(self)@ == old(self)@.dir_key_step(key).0,
            r@ == old(self)@.dir_key_step(key).1,
    {
        if key.code == KeyCode::Esc || char_with(key, 'o', CONTROL) {
            self.cancel_dir_input();
            AppAction::Continue
        } else if key.code == KeyCode::Enter {
            AppAction::ChangeRoot(self.take_dir_input())
        } else if key.code == KeyCode::Tab {
            AppAction::CompleteDir
        } else if typed_char(key).is_some() || key.code == KeyCode::Backspace || key.code
            == KeyCode::Delete || key.code == KeyCode::Left || key.code == KeyCode::Right
            || key.code == KeyCode::Home || key.code == KeyCode::End {
            line_edit_exec(&mut self.dir_input, &mut self.dir_input_cursor, key);
            AppAction::Continue
        } else {
            AppAction::Continue
        }
    }

    /// A key in the delete confirmation.
    pub fn handle_confirm_delete(&mut self, key: KeyInput) -> (r: AppAction)
        ensures
            final(self)@ == old(self)@.confirm_key_step(key).0,
            r@ == old(self)@.confirm_key_step(key).1,
    {
        if key.code == KeyCode::Esc || key.code == KeyCode::Char('n') || key.code == KeyCode::Char(
            'N',
        ) {
            self.confirm_delete = ConfirmDelete::Closed;
            self.status_message = chars_of("Delete cancelled");
            AppAction::Continue
        } else if key.code == KeyCode::Enter || key.code == KeyCode::Char('y') || key.code
            == KeyCode::Char('Y') {
            match self.execute_delete() {
                Some(p) => AppAction::DeletePath(p),
                None => AppAction::Continue,
            }
        } else {
            AppAction::Continue
        }
    }

    /// Complete the change-root text: of the directory entries (name, path)
    /// found where the text points, those whose name starts with `prefix`
    /// are candidates, and the smallest path replaces the text.
    pub fn complete_dir_input(&mut self, prefix: &Vec<char>, entries: &Vec<(Vec<char>, Vec<char>)>)
        ensures
            final(self)@ == old(self)@.completed(
                completion_of(crate::models::pairs_view(entries@), prefix@),
            ),
    {
        let ghost ev = crate::models::pairs_view(entries@);
        let mut best: Option<usize> = None;
        let mut i: usize = 0;
        proof {
            crate::models::lemma_pairs_view(entries@);
        }
        while i < entries.len()
            invariant
                i <= entries.len(),
                ev == crate::models::pairs_view(entries@),
                ev.len() == entries@.len(),
                forall|j: int|
                    0 <= j < entries@.len() ==> #[trigger] ev[j] == (entries@[j].0@, entries@[j].1@),
                match best {
                    Some(b) => b < i && has_prefix(ev[b as int].0, prefix@) && forall|j: int|
                        0 <= j < i && has_prefix(ev[j].0, prefix@) ==> lex_le(
                            ev[b as int].1,
                            #[trigger] ev[j].1,
                        ),
                    None => forall|j: int| 0 <= j < i ==> !has_prefix(#[trigger] ev[j].0, prefix@),
                },
            decreases entries.len() - i,
        {
            if crate::text::starts_with(&entries[i].0, prefix) {
                match best {
                    None => {
                        proof {
                            crate::order::lemma_lex_le_reflexive(ev[i as int].1);
                        }
                        best = Some(i);
                    },
                    Some(b) => {
                        if !crate::text::lex_le_exec(&entries[b].1, &entries[i].1) {
                            proof {
                                crate::order::lemma_lex_le_total(ev[b as int].1, ev[i as int].1);
                                crate::order::lemma_lex_le_reflexive(ev[i as int].1);
                                assert forall|j: int|
                                    0 <= j < i + 1 && has_prefix(ev[j].0, prefix@) implies lex_le(
                                    ev[i as int].1,
                                    #[trigger] ev[j].1,
                                ) by {
                                    if j < i {
                                        crate::order::lemma_lex_le_transitive(
                                            ev[i as int].1,
                                            ev[b as int].1,
                                            ev[j].1,
                                        );
                                    }
                                }
                            }
                            best = Some(i);
                        }
                    },
                }
            }
            i = i + 1;
        }
        match best {
            Some(b) => {
                let choice = crate::text::copy_text(&entries[b].1);
                proof {
                    lemma_completion_unique(ev, prefix@, ev[b as int].1);
                }
                self.dir_input_cursor = choice.len();
                self.dir_input = choice;
            },
            None => {},
        }
    }
}

/// The completion chosen from directory entries (name, path): the smallest
/// path among the entries whose name starts with `prefix`, if any.
pub open spec fn completion_of(entries: Seq<(Seq<char>, Seq<char>)>, prefix: Seq<char>) -> Option<
    Seq<char>,
> {
    if exists|c: Seq<char>| is_completion(entries, prefix, c) {
        Some(choose|c: Seq<char>| is_completion(entries, prefix, c))
    } else {
        None
    }
}

/// The smallest matching path is the completion.
proof fn lemma_completion_unique(entries: Seq<(Seq<char>, Seq<char>)>, prefix: Seq<char>, c: Seq<char>)
    requires
        is_completion(entries, prefix, c),
    ensures
        completion_of(entries, prefix) == Some(c),
{
    let d = choose|d: Seq<char>| is_completion(entries, prefix, d);
    assert(is_completion(entries, prefix, d));
    let i = choose|i: int|
        0 <= i < entries.len() && has_prefix(entries[i].0, prefix) && entries[i].1 == c;
    let k = choose|k: int|
        0 <= k < entries.len() && has_prefix(entries[k].0, prefix) && entries[k].1 == d;
    assert(lex_le(d, entries[i].1));
    assert(lex_le(c, entries[k].1));
    crate::order::lemma_lex_le_antisymmetric(c, d);
}

/// The index of the last `/` among the first `n` characters, if any.
pub open spec fn last_slash(t: Seq<char>, n: int) -> Option<int>
    decreases n,
{
    if n <= 0 || n > t.len() {
        None
    } else if t[n - 1] == '/' {
        Some(n - 1)
    } else {
        last_slash(t, n - 1)
    }
}

/// The directory and the name of a path written as text, as `Path::parent`
/// and `Path::file_name` take them apart: a last part `.` (or an empty one,
/// after a doubled `/`) is passed over; the name is the last part, none when
/// it is `..` or `.`; the directory is the text before it, the root `/` when
/// only a leading `/` is before it, and empty when there is no `/`.
pub open spec fn path_split(t: Seq<char>) -> (Seq<char>, Seq<char>)
    decreases t.len(),
{
    match last_slash(t, t.len() as int) {
        None => (Seq::empty(), if t == seq!['.'] || t == seq!['.', '.'] {
            Seq::empty()
        } else {
            t
        }),
        Some(i) => {
            let name = t.skip(i + 1);
            if name.len() == 0 || name == seq!['.'] {
                if i <= 0 {
                    (seq!['/'], Seq::empty())
                } else {
                    proof {
                        lemma_last_slash_bound(t, t.len() as int);
                    }
                    path_split(t.take(i))
                }
            } else {
                (if i <= 0 {
                    seq!['/']
                } else {
                    t.take(i)
                }, if name == seq!['.', '.'] {
                    Seq::empty()
                } else {
                    name
                })
            }
        },
    }
}

/// Where the typed text of the change-root dialog is completed: the
/// directory to list and the start of the name to complete.  Text that ends
/// with `/` is listed itself, with any name; other text is taken apart as
/// by `path_split`.
pub open spec fn completion_split(t: Seq<char>) -> (Seq<char>, Seq<char>) {
    if t.len() > 0 && t.last() == '/' {
        (t, Seq::empty())
    } else {
        path_split(t)
    }
}

/// The last `/` found lies among the first `n` characters.
pub proof fn lemma_last_slash_bound(t: Seq<char>, n: int)
    ensures
        last_slash(t, n) matches Some(i) ==> 0 <= i < n && i < t.len() && t[i] == '/',
    decreases n,
{
    if n > 0 && n <= t.len() && t[n - 1] != '/' {
        lemma_last_slash_bound(t, n - 1);
    }
}

/// The index of the last `/` in the text, if any.
fn last_slash_exec(t: &Vec<char>) -> (r: Option<usize>)
    ensures
        match r {
            Some(i) => last_slash(t@, t@.len() as int) == Some(i as int),
            None => last_slash(t@, t@.len() as int) is None,
        },
{
    let n = t.len();
    let mut i: usize = n;
    while i > 0 && t[i - 1] != '/'
        invariant
            i <= n,
            n == t@.len(),
            last_slash(t@, n as int) == last_slash(t@, i as int),
        decreases i,
    {
        i = i - 1;
    }
    if i == 0 {
        None
    } else {
        Some(i - 1)
    }
}

fn is_dots(t: &Vec<char>, n: usize) -> (r: bool)
    requires
        1 <= n <= 2,
    ensures
        r == (t@ == Seq::new(n as nat, |j: int| '.')),
{
    if t.len() != n {
        return false;
    }
    let mut j: usize = 0;
    while j < n
        invariant
            j <= n,
            t@.len() == n,
            forall|m: int| 0 <= m < j ==> t@[m] == '.',
        decreases n - j,
    {
        if t[j] != '.' {
            assert(t@[j as int] != Seq::new(n as nat, |m: int| '.')[j as int]);
            return false;
        }
        j = j + 1;
    }
    assert(t@ =~= Seq::new(n as nat, |m: int| '.'));
    true
}

/// Take a path written as text apart into its directory and its name.
pub fn path_split_exec(t: &Vec<char>) -> (r: (Vec<char>, Vec<char>))
    ensures
        (r.0@, r.1@) == path_split(t@),
    decreases t@.len(),
{
    proof {
        assert(seq!['.'] =~= Seq::new(1, |m: int| '.'));
        assert(seq!['.', '.'] =~= Seq::new(2, |m: int| '.'));
    }
    let n = t.len();
    match last_slash_exec(t) {
        None => {
            if is_dots(t, 1) || is_dots(t, 2) {
                (Vec::new(), Vec::new())
            } else {
                (Vec::new(), crate::text::copy_text(t))
            }
        },
        Some(i) => {
            proof {
                lemma_last_slash_bound(t@, n as int);
            }
            let name = crate::text::slice_text(t, i + 1, n);
            proof {
                assert(name@ =~= t@.skip(i + 1));
            }
            let mut root = Vec::new();
            root.push('/');
            proof {
                assert(root@ =~= seq!['/']);
            }
            if name.len() == 0 || is_dots(&name, 1) {
                if i == 0 {
                    (root, Vec::new())
                } else {
                    let dir = crate::text::slice_text(t, 0, i);
                    proof {
                        assert(dir@ =~= t@.take(i as int));
                    }
                    path_split_exec(&dir)
                }
            } else {
                let dir = if i == 0 {
                    root
                } else {
                    let d = crate::text::slice_text(t, 0, i);
                    proof {
                        assert(d@ =~= t@.take(i as int));
                    }
                    d
                };
                if is_dots(&name, 2) {
                    (dir, Vec::new())
                } else {
                    (dir, name)
                }
            }
        },
    }
}

/// Split the typed text of the change-root dialog into the directory to
/// list and the start of the name to complete.
pub fn completion_split_exec(t: &Vec<char>) -> (r: (Vec<char>, Vec<char>))
    ensures
        (r.0@, r.1@) == completion_split(t@),
{
    let n = t.len();
    if n > 0 && t[n - 1] == '/' {
        (crate::text::copy_text(t), Vec::new())
    } else {
        path_split_exec(t)
    }
}

} // verus!
