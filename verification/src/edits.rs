//! Adding, deleting and creating collection entries.
use vstd::prelude::*;
use std::collections::HashSet;
use crate::app::{
    header_rows_view, lemma_header_rows_view, AddedRequest, App, AppView, ConfirmDelete, CreateMode, CreateOutcome, CreatePlan, DeletedRequest, EditorField, TreeItemKind, create_report, items_view, lemma_files_view_update, lemma_items_view, new_request_name, strip_suffixes, with_requests,
};
use crate::models::{
    AppResponse, Environment, HttpMethod, Request, blank_request, copy_pairs, pairs_view,
    requests_view, substitute_all, lemma_pairs_view, lemma_requests_view,
};
use crate::path::{PathModel, PathView};
use crate::storage::{
    CollectionFile, TreeNode, TreeNodeKind, TreeNodeView, files_view, nodes_view, toggled,
    toggle_from, descend, lemma_nodes_view, lemma_nodes_view_update, lemma_files_view,
};
use crate::text::{append, chars_of, copy_text, str_then};
use crate::tree::copy_item_kind;

verus! {

/// The text with every trailing copy of `suffix` removed.
pub(crate) fn strip_suffixes_exec(t: &Vec<char>, suffix: &Vec<char>) -> (r: Vec<char>)
    ensures
        r@ == strip_suffixes(t@, suffix@),
{
    proof {
        reveal(strip_suffixes);
    }
    let mut end: usize = t.len();
    let ghost tv = t@;
    assert(tv.take(end as int) =~= tv);
    while suffix.len() > 0 && suffix.len() <= end && crate::text::occurs_at_exec(
        t,
        end - suffix.len(),
        suffix,
    )
        invariant
            end <= t.len(),
            tv == t@,
            strip_suffixes(tv.take(end as int), suffix@) == strip_suffixes(tv, suffix@),
        decreases end,
    {
        proof {
            reveal(strip_suffixes);
            let u = tv.take(end as int);
            assert(u.skip(u.len() - suffix@.len()) =~= tv.subrange(end - suffix@.len(), end as int));
            assert(u.take(u.len() - suffix@.len()) =~= tv.take(end - suffix@.len()));
        }
        end = end - suffix.len();
    }
    proof {
        let u = tv.take(end as int);
        if suffix@.len() > 0 && suffix@.len() <= end {
            assert(u.skip(u.len() - suffix@.len()) =~= tv.subrange(end - suffix@.len(), end as int));
        }
    }
    crate::text::slice_text(t, 0, end)
}

/// Overwrite request `ri` of collection `ci`.
pub(crate) fn col_set_request(cols: &mut Vec<CollectionFile>, ci: usize, ri: usize, req: Request)
    requires
        ci < old(cols).len(),
        ri < old(cols)@[ci as int].collection.requests.len(),
    ensures
        files_view(final(cols)@) == with_requests(
            files_view(old(cols)@),
            ci as int,
            files_view(old(cols)@)[ci as int].collection.requests.update(ri as int, req@),
        ),
{
    let ghost before = cols@;
    let mut cf = cols.remove(ci);
    let ghost old_reqs = cf.collection.requests@;
    cf.collection.requests.set(ri, req);
    proof {
        lemma_requests_view(cf.collection.requests@);
        lemma_requests_view(old_reqs);
        assert(requests_view(cf.collection.requests@) =~= requests_view(old_reqs).update(
            ri as int,
            req@,
        ));
    }
    cols.insert(ci, cf);
    proof {
        assert(cols@ =~= before.update(ci as int, cf));
        lemma_files_view_update(before, ci as int, cf);
        lemma_files_view(before);
        assert(files_view(before)[ci as int] == before[ci as int]@);
    }
}

/// Append a request to collection `ci`.
pub(crate) fn col_push_request(cols: &mut Vec<CollectionFile>, ci: usize, req: Request)
    requires
        ci < old(cols).len(),
    ensures
        files_view(final(cols)@) == with_requests(
            files_view(old(cols)@),
            ci as int,
            files_view(old(cols)@)[ci as int].collection.requests.push(req@),
        ),
        final(cols)@[ci as int].collection.requests.len() == old(cols)@[ci as int].collection.requests.len() + 1,
{
    let ghost before = cols@;
    let mut cf = cols.remove(ci);
    let ghost old_reqs = cf.collection.requests@;
    cf.collection.requests.push(req);
    proof {
        lemma_requests_view(cf.collection.requests@);
        lemma_requests_view(old_reqs);
        assert(requests_view(cf.collection.requests@) =~= requests_view(old_reqs).push(req@));
    }
    cols.insert(ci, cf);
    proof {
        assert(cols@ =~= before.update(ci as int, cf));
        lemma_files_view_update(before, ci as int, cf);
        lemma_files_view(before);
        assert(files_view(before)[ci as int] == before[ci as int]@);
    }
}

/// Remove request `ri` of collection `ci`.
pub(crate) fn col_remove_request(cols: &mut Vec<CollectionFile>, ci: usize, ri: usize)
    requires
        ci < old(cols).len(),
        ri < old(cols)@[ci as int].collection.requests.len(),
    ensures
        files_view(final(cols)@) == with_requests(
            files_view(old(cols)@),
            ci as int,
            files_view(old(cols)@)[ci as int].collection.requests.remove(ri as int),
        ),
{
    let ghost before = cols@;
    let mut cf = cols.remove(ci);
    let ghost old_reqs = cf.collection.requests@;
    cf.collection.requests.remove(ri);
    proof {
        lemma_requests_view(cf.collection.requests@);
        lemma_requests_view(old_reqs);
        assert(requests_view(cf.collection.requests@) =~= requests_view(old_reqs).remove(
            ri as int,
        ));
    }
    cols.insert(ci, cf);
    proof {
        assert(cols@ =~= before.update(ci as int, cf));
        lemma_files_view_update(before, ci as int, cf);
        lemma_files_view(before);
        assert(files_view(before)[ci as int] == before[ci as int]@);
    }
}

/// The status line reported for a create plan that was carried out.
pub fn create_report_exec(plan: &CreatePlan, outcome: CreateOutcome) -> (r: Option<Vec<char>>)
    ensures
        match r {
            Some(m) => create_report(plan@, outcome) == Some(m@),
            None => create_report(plan@, outcome) is None,
        },
{
    match plan {
        CreatePlan::Folder { name, .. } => match outcome {
            CreateOutcome::Created => Some(str_then("Created folder: ", name)),
            CreateOutcome::Failed(e) => Some(str_then("Error: ", &e)),
            CreateOutcome::AlreadyExists => None,
        },
        CreatePlan::Collection { file_name, .. } => match outcome {
            CreateOutcome::Created => Some(str_then("Created collection: ", file_name)),
            CreateOutcome::AlreadyExists => Some(str_then("File already exists: ", file_name)),
            CreateOutcome::Failed(e) => Some(str_then("Error: ", &e)),
        },
        CreatePlan::Nothing { .. } => None,
    }
}

impl App {
    pub(crate) fn reset_editor(&mut self)
        ensures
            final(self)@ == old(self)@.reset_editor(),
    {
        self.current_request = Request::new("New Request");
        self.current_collection_path = None;
        self.current_request_index = None;
        self.name_cursor = 0;
        self.url_cursor = 0;
        self.header_rows = Vec::new();
        proof {
            lemma_header_rows_view(self.header_rows@);
        }
        assert(header_rows_view(self.header_rows@) =~= Seq::empty());
    }

    /// Take in freshly loaded collections and tree: every file collapsed,
    /// items rebuilt, selection kept within the items.

    /// Report how writing the stored request to disk went.
    pub fn finish_save_request(&mut self, error: Option<Vec<char>>)
        ensures
            final(self)@ == (AppView {
                status_message: match error {
                    None => "Saved: "@ + old(self)@.current_request.name,
                    Some(e) => "Error saving: "@ + e@,
                },
                ..old(self)@
            }),
    {
        match error {
            None => {
                self.status_message = str_then("Saved: ", &self.current_request.name);
            },
            Some(e) => {
                self.status_message = str_then("Error saving: ", &e);
            },
        }
    }

    /// Report that a collection file could not be saved.
    pub fn report_save_error(&mut self, e: &Vec<char>)
        ensures
            final(self)@ == (AppView { status_message: "Error saving: "@ + e@, ..old(self)@ }),
    {
        self.status_message = str_then("Error saving: ", e);
    }

    /// Append a new blank request to the selected collection.  The result
    /// names the collection file to write and the new request.
    pub fn add_new_request_to_selected(&mut self) -> (r: Option<AddedRequest>)
        ensures
            final(self)@ == old(self)@.add_request().0,
            match r {
                Some(a) => old(self)@.add_request().1 == Some(
                    (a.collection_index, a.request_index, a.path@),
                ),
                None => old(self)@.add_request().1 is None,
            },
    {
        proof {
            lemma_items_view(self.tree_items@);
            lemma_files_view(self.collections@);
        }
        let mut col_idx: Option<usize> = None;
        if self.tree_selected < self.tree_items.len() {
            proof {
                lemma_items_view(self.tree_items@);
                assert(items_view(self.tree_items@)[self.tree_selected as int]
                    == self.tree_items@[self.tree_selected as int]@);
            }
            match &self.tree_items[self.tree_selected].kind {
                TreeItemKind::File { collection_index, .. } => {
                    col_idx = Some(*collection_index);
                },
                TreeItemKind::Request { collection_index, .. } => {
                    col_idx = Some(*collection_index);
                },
                TreeItemKind::Directory { .. } => {},
            }
        }
        match col_idx {
            None => {
                self.status_message = chars_of(
                    "Select a collection file first, then press 'a' to add a request",
                );
                None
            },
            Some(ci) => {
                if ci < self.collections.len() {
                    proof {
                        lemma_requests_view(self.collections@[ci as int].collection.requests@);
                        reveal_strlit("New Request");
                    }
                    let req_idx = self.collections[ci].collection.requests.len();
                    let path = self.collections[ci].path.copy();
                    let new_req = Request::new("New Request");
                    col_push_request(&mut self.collections, ci, new_req);
                    Some(AddedRequest { collection_index: ci, request_index: req_idx, path })
                } else {
                    None
                }
            },
        }
    }

    /// After the new request was saved and the collections reloaded: show
    /// it and start editing its name.
    pub fn finish_add_request(&mut self, added: &AddedRequest)
        ensures
            final(self)@ == old(self)@.added_request(
                added.collection_index,
                added.request_index,
                added.path@,
            ),
    {
        broadcast use vstd::std_specs::hash::group_hash_axioms;

        let ci = match crate::storage::find_collection(&self.collections, &added.path) {
            Some(i) => i,
            None => added.collection_index,
        };
        self.collection_expanded.insert(ci);
        self.rebuild_tree_items();
        self.load_request(ci, added.request_index);
        self.name_cursor = self.current_request.name.len();
        self.editor_field = EditorField::Name;
        self.editing = true;
    }

    /// Remove the selected request from its collection.  The result names
    /// the collection file to write and the removed request.
    pub fn delete_selected_request(&mut self) -> (r: Option<DeletedRequest>)
        ensures
            final(self)@ == old(self)@.delete_request().0,
            match r {
                Some(d) => old(self)@.delete_request().1 == Some(
                    (d.collection_index, d.request_index, d.name@),
                ),
                None => old(self)@.delete_request().1 is None,
            },
    {
        proof {
            lemma_items_view(self.tree_items@);
            lemma_files_view(self.collections@);
        }
        if self.tree_selected >= self.tree_items.len() {
            return None;
        }
        proof {
            lemma_items_view(self.tree_items@);
            assert(items_view(self.tree_items@)[self.tree_selected as int]
                == self.tree_items@[self.tree_selected as int]@);
        }
        match &self.tree_items[self.tree_selected].kind {
            TreeItemKind::Request { collection_index, request_index } => {
                let ci = *collection_index;
                let ri = *request_index;
                proof {
                    if ci < self.collections.len() {
                        lemma_requests_view(self.collections@[ci as int].collection.requests@);
                    }
                }
                if ci < self.collections.len() && ri < self.collections[ci].collection.requests.len() {
                    let name = copy_text(&self.collections[ci].collection.requests[ri].name);
                    col_remove_request(&mut self.collections, ci, ri);
                    Some(DeletedRequest { collection_index: ci, request_index: ri, name })
                } else {
                    None
                }
            },
            _ => {
                self.status_message = chars_of("Select a request item to delete");
                None
            },
        }
    }

    /// After the removal was saved: clear the editor when it showed that
    /// request, and report it.
    pub fn finish_delete_request(&mut self, deleted: &DeletedRequest)
        ensures
            final(self)@ == old(self)@.deleted_request(
                deleted.collection_index,
                deleted.request_index,
                deleted.name@,
            ),
    {
        if self.shows_request(deleted.collection_index, deleted.request_index) {
            self.reset_editor();
        }
        self.set_status(str_then("Deleted request: ", &deleted.name));
    }

    /// Whether the editor shows request `ri` of collection `ci`.
    fn shows_request(&self, ci: usize, ri: usize) -> (r: bool)
        ensures
            r == (ci < self@.collections.len() && self@.current_collection_path == Some(
                self@.collections[ci as int].path,
            ) && self@.current_request_index == Some(ri)),
    {
        proof {
            lemma_files_view(self.collections@);
        }
        if ci < self.collections.len() {
            match &self.current_collection_path {
                Some(p) => p.same_as(&self.collections[ci].path) && self.current_request_index == Some(
                    ri,
                ),
                None => false,
            }
        } else {
            false
        }
    }

    /// Ask to delete the selected item.  A request is removed at once: the
    /// result then names the collection file to write.
    pub fn prompt_delete_selected(&mut self) -> (r: Option<DeletedRequest>)
        ensures
            final(self)@ == old(self)@.prompt_delete().0,
            match r {
                Some(d) => old(self)@.prompt_delete().1 == Some(
                    (d.collection_index, d.request_index, d.name@),
                ),
                None => old(self)@.prompt_delete().1 is None,
            },
    {
        proof {
            lemma_items_view(self.tree_items@);
            lemma_files_view(self.collections@);
        }
        if self.tree_selected >= self.tree_items.len() {
            return None;
        }
        proof {
            lemma_items_view(self.tree_items@);
            assert(items_view(self.tree_items@)[self.tree_selected as int]
                == self.tree_items@[self.tree_selected as int]@);
        }
        let kind = copy_item_kind(&self.tree_items[self.tree_selected].kind);
        match kind {
            TreeItemKind::Directory { path, .. } => {
                if path.same_as(&self.collections_root) {
                    self.set_status(chars_of("Cannot delete the root directory"));
                    return None;
                }
                let name = match path.file_name() {
                    Some(n) => n,
                    None => chars_of("this folder"),
                };
                let mut description = str_then("folder \"", &name);
                crate::text::append_str(&mut description, "\" and ALL its contents");
                self.set_confirm_delete(ConfirmDelete::Pending { path, description });
                None
            },
            TreeItemKind::File { collection_index, .. } => {
                if collection_index < self.collections.len() {
                    proof {
                        lemma_files_view(self.collections@);
                        assert(files_view(self.collections@)[collection_index as int]
                            == self.collections@[collection_index as int]@);
                    }
                    let p = self.collections[collection_index].path.copy();
                    let name = match p.file_name() {
                        Some(n) => n,
                        None => chars_of("this file"),
                    };
                    let mut description = str_then("file \"", &name);
                    crate::text::append_str(&mut description, "\"");
                    self.set_confirm_delete(ConfirmDelete::Pending { path: p, description });
                }
                None
            },
            TreeItemKind::Request { .. } => self.delete_selected_request(),
        }
    }

    /// Confirm the pending delete.  The result is the path to remove.
    pub fn execute_delete(&mut self) -> (r: Option<PathModel>)
        ensures
            final(self)@ == old(self)@.confirm_delete_step().0,
            match r {
                Some(p) => old(self)@.confirm_delete_step().1 == Some(p@),
                None => old(self)@.confirm_delete_step().1 is None,
            },
    {
        let path = match &self.confirm_delete {
            ConfirmDelete::Pending { path, .. } => path.copy(),
            ConfirmDelete::Closed => {
                return None;
            },
        };
        let mut inside = false;
        match &self.current_collection_path {
            Some(cp) => {
                inside = cp.starts_with(&path);
            },
            None => {},
        }
        if inside {
            self.reset_editor();
        }
        self.set_confirm_delete(ConfirmDelete::Closed);
        Some(path)
    }

    /// Report how removing `path` went.
    pub fn finish_delete(&mut self, path: &PathModel, error: Option<Vec<char>>)
        ensures
            final(self)@ == (AppView {
                status_message: match error {
                    None => "Deleted: "@ + match path@.file_name() {
                        Some(n) => n,
                        None => "item"@,
                    },
                    Some(e) => "Delete failed: "@ + e@,
                },
                ..old(self)@
            }),
    {
        match error {
            None => {
                let name = match path.file_name() {
                    Some(n) => n,
                    None => chars_of("item"),
                };
                self.status_message = str_then("Deleted: ", &name);
            },
            Some(e) => {
                self.status_message = str_then("Delete failed: ", &e);
            },
        }
    }

    /// Close the create dialog and say what it asks to be created.
    pub fn confirm_create(&mut self) -> (r: CreatePlan)
        ensures
            final(self)@ == old(self)@.create_plan().0,
            r@ == old(self)@.create_plan().1,
    {
        let parent = match self.create_mode.parent_path() {
            Some(p) => p.copy(),
            None => self.collections_root.copy(),
        };
        let plan = match &self.create_mode {
            CreateMode::Folder { input, .. } => {
                let name = crate::text::trim_text(input);
                if name.len() > 0 {
                    CreatePlan::Folder { parent, name }
                } else {
                    CreatePlan::Nothing { parent }
                }
            },
            CreateMode::Collection { input, .. } => {
                let raw = crate::text::trim_text(input);
                if raw.len() > 0 {
                    let yaml = chars_of(".yaml");
                    let yml = chars_of(".yml");
                    let file_name = if crate::text::ends_with(&raw, &yaml) || crate::text::ends_with(
                        &raw,
                        &yml,
                    ) {
                        copy_text(&raw)
                    } else {
                        crate::text::concat(&raw, &yaml)
                    };
                    let stem = strip_suffixes_exec(&strip_suffixes_exec(&raw, &yaml), &yml);
                    let mut template = str_then("name: ", &stem);
                    crate::text::append_str(&mut template, "\nrequests: []\n");
                    CreatePlan::Collection { parent, file_name, template }
                } else {
                    CreatePlan::Nothing { parent }
                }
            },
            CreateMode::Closed => CreatePlan::Nothing { parent },
        };
        self.create_mode = CreateMode::Closed;
        plan
    }

    /// Report how carrying out a create plan went.
    pub fn finish_create(&mut self, plan: &CreatePlan, outcome: CreateOutcome)
        ensures
            final(self)@ == (match create_report(plan@, outcome) {
                Some(m) => AppView { status_message: m, ..old(self)@ },
                None => old(self)@,
            }),
    {
        match create_report_exec(plan, outcome) {
            Some(m) => self.set_status(m),
            None => {},
        }
    }
}

} // verus!
