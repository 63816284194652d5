//! Starting the application, the environment editor, responses and the
//! change-root dialog.
use vstd::prelude::*;
use std::collections::HashSet;
use crate::app::{
    App, AppView, ConfirmDelete, ConfirmDeleteView, CreateMode, CreateModeView, EditorField, EnvRow,
    FocusPanel, Rect, RequestTab, ResponseTab, env_rows_view, header_rows_view, items_view,
    lemma_env_rows_view, lemma_header_rows_view, lemma_items_view, new_request_name, rows_to_vars,
    map_insert, lemma_key_index,
};
use crate::editor::pairs_insert;
use crate::models::{
    AppResponse, AppResponseView, Environment, Request, blank_request, pairs_view, sort_pairs,
    sorted_pairs, lemma_pairs_view,
};
use crate::path::PathModel;
use crate::storage::{CollectionFile, CollectionFileView, TreeNode, TreeNodeView, files_view, nodes_view};
use crate::text::{append, append_str, chars_of, copy_text, decimal, decimal_text, str_then, trim, trim_text};

verus! {

/// The editor rows of a list of variables: one row per variable, ordered by
/// name.
pub open spec fn env_rows_of(vars: Seq<(Seq<char>, Seq<char>)>) -> Seq<(Seq<char>, Seq<char>)> {
    sorted_pairs(vars)
}

/// The status line for a response: `{status} {status text} — {ms}ms`.
pub open spec fn response_status_line(r: AppResponseView) -> Seq<char> {
    decimal(r.status as nat) + " "@ + r.status_text + " — "@ + decimal(r.elapsed_ms as nat) + "ms"@
}

/// The state right after start-up, before the first request is loaded.
pub open spec fn startup_view(
    cols: Seq<CollectionFileView>,
    nodes: Seq<TreeNodeView>,
    root: crate::path::PathView,
    env: Seq<(Seq<char>, Seq<char>)>,
) -> AppView {
    AppView {
        focus: FocusPanel::CollectionTree,
        editing: false,
        should_quit: false,
        collections_rect: Rect { x: 0, y: 0, width: 0, height: 0 },
        request_rect: Rect { x: 0, y: 0, width: 0, height: 0 },
        response_rect: Rect { x: 0, y: 0, width: 0, height: 0 },
        tree_items_y: 0,
        collections: cols,
        tree_nodes: nodes,
        collection_expanded: Set::empty(),
        tree_items: Seq::empty(),
        tree_selected: 0,
        current_request: blank_request(new_request_name()),
        current_collection_path: None,
        current_request_index: None,
        request_tab: RequestTab::Headers,
        editor_field: EditorField::Url,
        header_rows: Seq::empty(),
        header_selected: 0,
        header_edit_key: true,
        url_cursor: 0,
        name_cursor: 0,
        body_cursor: 0,
        body_scroll: 0,
        body_scroll_x: 0,
        header_cursor: 0,
        response: None,
        response_tab: ResponseTab::Body,
        response_scroll: 0,
        response_scroll_x: 0,
        is_loading: false,
        response_sel_start: None,
        response_sel_end: None,
        response_is_selecting: false,
        response_body_rect: Rect { x: 0, y: 0, width: 0, height: 0 },
        status_message: Seq::empty(),
        show_help: false,
        create_mode: CreateModeView::Closed,
        confirm_delete: ConfirmDeleteView::Closed,
        env,
        show_env_editor: false,
        env_rows: env_rows_of(env),
        env_selected: 0,
        env_edit_key: true,
        env_cursor: 0,
        collections_root: root,
        show_dir_input: false,
        dir_input: Seq::empty(),
        dir_input_cursor: 0,
    }
}

/// The state the application starts in: the tree built, and the first
/// request of the first collection loaded when there is one.
pub open spec fn initial_view(
    cols: Seq<CollectionFileView>,
    nodes: Seq<TreeNodeView>,
    root: crate::path::PathView,
    env: Seq<(Seq<char>, Seq<char>)>,
) -> AppView {
    startup_view(cols, nodes, root, env).rebuild().load_request(0, 0)
}

impl AppView {
    /// The environment set from the editor rows.
    pub open spec fn saved_env(self) -> AppView {
        AppView { env: rows_to_vars(self.env_rows, self.env_rows.len()), ..self }
    }

    /// The editor rows refilled from the environment.
    pub open spec fn env_synced(self) -> AppView {
        AppView { env_rows: env_rows_of(self.env), ..self }
    }

    /// A response (or the error of the request) has arrived.
    pub open spec fn with_response(self, r: Result<AppResponseView, Seq<char>>) -> AppView {
        match r {
            Ok(resp) => AppView {
                is_loading: false,
                status_message: response_status_line(resp),
                response: Some(resp),
                response_scroll: 0,
                response_scroll_x: 0,
                response_sel_start: None,
                response_sel_end: None,
                ..self
            },
            Err(e) => AppView {
                is_loading: false,
                status_message: "Request error: "@ + e,
                ..self
            },
        }
    }

    /// The change-root dialog closed and emptied.
    pub open spec fn dir_input_taken(self) -> AppView {
        AppView { show_dir_input: false, dir_input: Seq::empty(), dir_input_cursor: 0, ..self }
    }

    /// Everything reloaded from a new collections root.
    pub open spec fn root_changed(
        self,
        raw: Seq<char>,
        root: crate::path::PathView,
        cols: Seq<CollectionFileView>,
        nodes: Seq<TreeNodeView>,
        env: Seq<(Seq<char>, Seq<char>)>,
    ) -> AppView {
        AppView {
            collections_root: root,
            collections: cols,
            tree_nodes: nodes,
            tree_selected: 0,
            collection_expanded: Set::empty(),
            current_collection_path: None,
            current_request_index: None,
            current_request: blank_request(new_request_name()),
            name_cursor: 0,
            url_cursor: 0,
            response: None,
            header_rows: Seq::empty(),
            env,
            env_rows: env_rows_of(env),
            env_selected: 0,
            ..self
        }.rebuild().with_status("Root changed to: "@ + raw)
    }

    pub open spec fn with_status(self, m: Seq<char>) -> AppView {
        AppView { status_message: m, ..self }
    }
}

/// Editor rows holding the given pairs, in order.
fn rows_of_pairs(pairs: &Vec<(Vec<char>, Vec<char>)>) -> (r: Vec<EnvRow>)
    ensures
        env_rows_view(r@) == pairs_view(pairs@),
{
    let mut rows: Vec<EnvRow> = Vec::new();
    let mut i: usize = 0;
    proof {
        lemma_env_rows_view(rows@);
        lemma_pairs_view(pairs@);
    }
    while i < pairs.len()
        invariant
            i <= pairs.len(),
            env_rows_view(rows@) == pairs_view(pairs@).take(i as int),
        decreases pairs.len() - i,
    {
        let ghost before = rows@;
        rows.push(EnvRow { key: copy_text(&pairs[i].0), value: copy_text(&pairs[i].1) });
        proof {
            lemma_env_rows_view(rows@);
            lemma_env_rows_view(before);
            lemma_pairs_view(pairs@);
            assert(env_rows_view(rows@) =~= env_rows_view(before).push(pairs_view(pairs@)[i as int]));
            assert(pairs_view(pairs@).take(i + 1) =~= pairs_view(pairs@).take(i as int).push(
                pairs_view(pairs@)[i as int],
            ));
        }
        i = i + 1;
    }
    proof {
        lemma_pairs_view(pairs@);
        assert(pairs_view(pairs@).take(i as int) =~= pairs_view(pairs@));
    }
    rows
}

/// The editor rows of an environment: its variables ordered by name.
fn env_rows_from(env: &Environment) -> (r: Vec<EnvRow>)
    ensures
        env_rows_view(r@) == env_rows_of(env.vars()),
{
    let sorted = env.sorted_vars();
    rows_of_pairs(&sorted)
}

impl App {
    /// The application state for the given collections, tree, root and
    /// environment: focus on the tree, the tree built, and the first
    /// request of the first collection loaded when there is one.
    pub fn new(
        collections: Vec<CollectionFile>,
        tree_nodes: Vec<TreeNode>,
        collections_root: PathModel,
        env: Environment,
    ) -> (r: App)
        ensures
            r@ == initial_view(
                files_view(collections@),
                nodes_view(tree_nodes@),
                collections_root@,
                env.vars(),
            ),
            r@.wf(),
    {
        broadcast use vstd::std_specs::hash::group_hash_axioms;

        proof {
            crate::laws::law_initial_wf(
                files_view(collections@),
                nodes_view(tree_nodes@),
                collections_root@,
                env.vars(),
            );
        }
        let env_rows = env_rows_from(&env);
        let ghost cols = files_view(collections@);
        let ghost nodes = nodes_view(tree_nodes@);
        let ghost root = collections_root@;
        let ghost vars = env.vars();
        let mut app = App {
            focus: FocusPanel::CollectionTree,
            editing: false,
            should_quit: false,
            collections_rect: Rect::zero(),
            request_rect: Rect::zero(),
            response_rect: Rect::zero(),
            tree_items_y: 0,
            collections,
            tree_nodes,
            collection_expanded: HashSet::new(),
            tree_items: Vec::new(),
            tree_selected: 0,
            current_request: Request::new("New Request"),
            current_collection_path: None,
            current_request_index: None,
            request_tab: RequestTab::Headers,
            editor_field: EditorField::Url,
            header_rows: Vec::new(),
            header_selected: 0,
            header_edit_key: true,
            url_cursor: 0,
            name_cursor: 0,
            body_cursor: 0,
            body_scroll: 0,
            body_scroll_x: 0,
            header_cursor: 0,
            response: None,
            response_tab: ResponseTab::Body,
            response_scroll: 0,
            response_scroll_x: 0,
            is_loading: false,
            response_sel_start: None,
            response_sel_end: None,
            response_is_selecting: false,
            response_body_rect: Rect::zero(),
            status_message: Vec::new(),
            show_help: false,
            create_mode: CreateMode::Closed,
            confirm_delete: ConfirmDelete::Closed,
            env,
            show_env_editor: false,
            env_rows,
            env_selected: 0,
            env_edit_key: true,
            env_cursor: 0,
            collections_root,
            show_dir_input: false,
            dir_input: Vec::new(),
            dir_input_cursor: 0,
        };
        proof {
            reveal_strlit("New Request");
            lemma_items_view(app.tree_items@);
            lemma_header_rows_view(app.header_rows@);
            assert(items_view(app.tree_items@) =~= Seq::empty());
            assert(header_rows_view(app.header_rows@) =~= Seq::empty());
            assert(app@ == startup_view(cols, nodes, root, vars));
        }
        app.rebuild_tree_items();
        app.load_request(0, 0);
        app
    }

    /// Set the environment from the editor rows: each row whose trimmed
    /// key is not blank sets that variable, later rows winning.  Writing
    /// the environment file is left to the caller.
    pub fn save_env(&mut self)
        ensures
            final(self)@ == old(self)@.saved_env(),
    {
        let mut vars: Vec<(Vec<char>, Vec<char>)> = Vec::new();
        let ghost rows = env_rows_view(self.env_rows@);
        let mut i: usize = 0;
        proof {
            reveal(rows_to_vars);
            lemma_pairs_view(vars@);
            assert(pairs_view(vars@) =~= rows_to_vars(rows, 0));
        }
        while i < self.env_rows.len()
            invariant
                i <= self.env_rows.len(),
                rows == env_rows_view(self.env_rows@),
                pairs_view(vars@) == rows_to_vars(rows, i as nat),
            decreases self.env_rows.len() - i,
        {
            proof {
                reveal(rows_to_vars);
                lemma_env_rows_view(self.env_rows@);
            }
            let k = trim_text(&self.env_rows[i].key);
            if k.len() > 0 {
                pairs_insert(&mut vars, k, copy_text(&self.env_rows[i].value));
            }
            i = i + 1;
        }
        proof {
            lemma_env_rows_view(self.env_rows@);
        }
        self.env.variables = vars;
    }

    /// Report how writing the environment file went.
    pub fn finish_save_env(&mut self, error: Option<Vec<char>>)
        ensures
            final(self)@ == old(self)@.with_status(
                match error {
                    None => "Environment saved"@,
                    Some(e) => "Error saving env: "@ + e@,
                },
            ),
    {
        match error {
            None => {
                self.status_message = chars_of("Environment saved");
            },
            Some(e) => {
                self.status_message = str_then("Error saving env: ", &e);
            },
        }
    }

    /// Refill the editor rows from the environment, ordered by name.
    pub fn sync_env_to_rows(&mut self)
        ensures
            final(self)@ == old(self)@.env_synced(),
    {
        self.env_rows = env_rows_from(&self.env);
    }

    /// Take in the outcome of a request that was sent.
    pub fn receive_response(&mut self, result: Result<AppResponse, Vec<char>>)
        ensures
            final(self)@ == old(self)@.with_response(
                match result {
                    Ok(r) => Ok::<AppResponseView, Seq<char>>(r@),
                    Err(e) => Err::<AppResponseView, Seq<char>>(e@),
                },
            ),
    {
        self.is_loading = false;
        match result {
            Ok(response) => {
                let mut msg = decimal_text(response.status as u128);
                msg.push(' ');
                append(&mut msg, &response.status_text);
                append_str(&mut msg, " — ");
                append(&mut msg, &decimal_text(response.elapsed_ms));
                append_str(&mut msg, "ms");
                proof {
                    reveal_strlit(" ");
                }
                assert(msg@ =~= response_status_line(response@));
                self.status_message = msg;
                self.response = Some(response);
                self.response_scroll = 0;
                self.response_scroll_x = 0;
                self.response_sel_start = None;
                self.response_sel_end = None;
            },
            Err(e) => {
                self.status_message = str_then("Request error: ", &e);
            },
        }
    }

    /// Close the change-root dialog and hand back its text, trimmed.
    pub fn take_dir_input(&mut self) -> (raw: Vec<char>)
        ensures
            raw@ == trim(old(self)@.dir_input),
            final(self)@ == old(self)@.dir_input_taken(),
    {
        let raw = trim_text(&self.dir_input);
        self.show_dir_input = false;
        self.dir_input = Vec::new();
        self.dir_input_cursor = 0;
        raw
    }

    /// Report that the typed root is not a directory.
    pub fn reject_dir_input(&mut self, raw: &Vec<char>)
        ensures
            final(self)@ == old(self)@.with_status("Not a directory: "@ + raw@),
    {
        self.status_message = str_then("Not a directory: ", raw);
    }

    /// Switch to a new collections root, with the collections, tree and
    /// environment loaded from it: the editor starts over with a new
    /// request and the tree is rebuilt.
    pub fn apply_dir_input(
        &mut self,
        raw: &Vec<char>,
        root: PathModel,
        collections: Vec<CollectionFile>,
        tree_nodes: Vec<TreeNode>,
        env: Environment,
    )
        ensures
            final(self)@ == old(self)@.root_changed(
                raw@,
                root@,
                files_view(collections@),
                nodes_view(tree_nodes@),
                env.vars(),
            ),
    {
        broadcast use vstd::std_specs::hash::group_hash_axioms;

        self.collections_root = root;
        self.collections = collections;
        self.tree_nodes = tree_nodes;
        self.tree_selected = 0;
        self.collection_expanded.clear();
        self.current_collection_path = None;
        self.current_request_index = None;
        self.current_request = Request::new("New Request");
        self.name_cursor = 0;
        self.url_cursor = 0;
        self.response = None;
        self.header_rows = Vec::new();
        self.env_rows = env_rows_from(&env);
        self.env = env;
        self.env_selected = 0;
        proof {
            reveal_strlit("New Request");
            lemma_header_rows_view(self.header_rows@);
            assert(header_rows_view(self.header_rows@) =~= Seq::empty());
        }
        self.rebuild_tree_items();
        self.status_message = str_then("Root changed to: ", raw);
    }
}

} // verus!
