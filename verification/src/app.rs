//! The application state and what each operation does to it.
use vstd::prelude::*;
use std::collections::HashSet;
use crate::models::{
    AppResponse, AppResponseView, Environment, HttpMethod, Request, RequestView, blank_request,
    copy_pairs, pairs_view, requests_view, substitute_all, lemma_pairs_view, lemma_requests_view,
};
use crate::path::{PathModel, PathView};
use crate::storage::{
    CollectionFile, CollectionFileView, TreeKindView, TreeNode, TreeNodeKind, TreeNodeView,
    files_view, nodes_view, toggled, toggle_from, descend, lemma_nodes_view, lemma_nodes_view_update,
    lemma_files_view,
};
use crate::text::{append, chars_of, copy_text, str_then};

verus! {


/// Inline create dialog state.
#[derive(Debug)]
pub enum CreateMode {
    Closed,
    Folder { input: Vec<char>, cursor: usize, parent_path: PathModel },
    Collection { input: Vec<char>, cursor: usize, parent_path: PathModel },
}

pub enum CreateModeView {
    Closed,
    Folder { input: Seq<char>, cursor: usize, parent_path: PathView },
    Collection { input: Seq<char>, cursor: usize, parent_path: PathView },
}

impl View for CreateMode {
    type V = CreateModeView;

    open spec fn view(&self) -> CreateModeView {
        match self {
            CreateMode::Closed => CreateModeView::Closed,
            CreateMode::Folder { input, cursor, parent_path } => CreateModeView::Folder {
                input: input@,
                cursor: *cursor,
                parent_path: parent_path@,
            },
            CreateMode::Collection { input, cursor, parent_path } => CreateModeView::Collection {
                input: input@,
                cursor: *cursor,
                parent_path: parent_path@,
            },
        }
    }
}

impl CreateModeView {
    pub open spec fn parent(self) -> Option<PathView> {
        match self {
            CreateModeView::Closed => None,
            CreateModeView::Folder { parent_path, .. } => Some(parent_path),
            CreateModeView::Collection { parent_path, .. } => Some(parent_path),
        }
    }
}

impl CreateMode {
    /// Whether a create dialog is open.
    pub fn is_active(&self) -> (r: bool)
        ensures
            r == !(self is Closed),
    {
        !matches!(self, CreateMode::Closed)
    }

    /// The text typed in the dialog and its cursor, for editing in place.
    pub fn input_mut(&mut self) -> (r: Option<(&mut Vec<char>, &mut usize)>)
        ensures
            old(self)@ is Closed ==> r is None && final(self)@ == old(self)@,
            old(self)@ is Folder ==> (r matches Some(p) && (*p.0)@ == old(self)@->Folder_input
                && *p.1 == old(self)@->Folder_cursor && final(self)@ == (CreateModeView::Folder {
                input: (*final(p.0))@,
                cursor: *final(p.1),
                parent_path: old(self)@->Folder_parent_path,
            })),
            old(self)@ is Collection ==> (r matches Some(p) && (*p.0)@ == old(self)@->Collection_input
                && *p.1 == old(self)@->Collection_cursor && final(self)@ == (
            CreateModeView::Collection {
                input: (*final(p.0))@,
                cursor: *final(p.1),
                parent_path: old(self)@->Collection_parent_path,
            })),
    {
        match self {
            CreateMode::Folder { input, cursor, .. } => Some((input, cursor)),
            CreateMode::Collection { input, cursor, .. } => Some((input, cursor)),
            CreateMode::Closed => None,
        }
    }

    /// The directory the dialog creates its item in.
    pub fn parent_path(&self) -> (r: Option<&PathModel>)
        ensures
            match r {
                Some(p) => self@.parent() == Some(p@),
                None => self@.parent() is None,
            },
    {
        match self {
            CreateMode::Folder { parent_path, .. } => Some(parent_path),
            CreateMode::Collection { parent_path, .. } => Some(parent_path),
            CreateMode::Closed => None,
        }
    }
}

/// Delete confirmation dialog state.
#[derive(Debug)]
pub enum ConfirmDelete {
    Closed,
    Pending { path: PathModel, description: Vec<char> },
}

pub enum ConfirmDeleteView {
    Closed,
    Pending { path: PathView, description: Seq<char> },
}

impl View for ConfirmDelete {
    type V = ConfirmDeleteView;

    open spec fn view(&self) -> ConfirmDeleteView {
        match self {
            ConfirmDelete::Closed => ConfirmDeleteView::Closed,
            ConfirmDelete::Pending { path, description } => ConfirmDeleteView::Pending {
                path: path@,
                description: description@,
            },
        }
    }
}

impl ConfirmDelete {
    /// Whether the confirmation dialog is open.
    pub fn is_active(&self) -> (r: bool)
        ensures
            r == !(self is Closed),
    {
        !matches!(self, ConfirmDelete::Closed)
    }
}

/// Which panel currently has focus.
#[derive(PartialEq, Eq, Structural, Clone, Copy, Debug)]
pub enum FocusPanel {
    CollectionTree,
    RequestEditor,
    ResponseViewer,
}

/// Which tab is active in the request editor.
#[derive(PartialEq, Eq, Structural, Clone, Copy, Debug)]
pub enum RequestTab {
    Headers,
    Body,
}

/// Which tab is active in the response viewer.
#[derive(PartialEq, Eq, Structural, Clone, Copy, Debug)]
pub enum ResponseTab {
    Body,
    Headers,
}

/// Which field in the request editor has focus.
#[derive(PartialEq, Eq, Structural, Clone, Copy, Debug)]
pub enum EditorField {
    Name,
    Url,
    Method,
    Headers,
    Body,
}

/// One editable header line.
#[derive(Debug)]
pub struct HeaderRow {
    pub key: Vec<char>,
    pub value: Vec<char>,
}

/// One editable environment variable line.
#[derive(Debug)]
pub struct EnvRow {
    pub key: Vec<char>,
    pub value: Vec<char>,
}

#[verifier::opaque]
pub open spec fn header_rows_view(v: Seq<HeaderRow>) -> Seq<(Seq<char>, Seq<char>)> {
    v.map_values(|r: HeaderRow| (r.key@, r.value@))
}

#[verifier::opaque]
pub open spec fn env_rows_view(v: Seq<EnvRow>) -> Seq<(Seq<char>, Seq<char>)> {
    v.map_values(|r: EnvRow| (r.key@, r.value@))
}

/// The view of the header rows has one entry per row: its key and value.
pub broadcast proof fn lemma_header_rows_view(v: Seq<HeaderRow>)
    ensures
        #[trigger] header_rows_view(v).len() == v.len(),
        forall|i: int| 0 <= i < v.len() ==> #[trigger] header_rows_view(v)[i] == (v[i].key@, v[i].value@),
{
    reveal(header_rows_view);
}

/// The number of header rows.
pub proof fn lemma_header_rows_len(v: Seq<HeaderRow>)
    ensures
        header_rows_view(v).len() == v.len(),
{
    reveal(header_rows_view);
}

/// Header row `i`, viewed.
pub proof fn lemma_header_rows_index(v: Seq<HeaderRow>, i: int)
    requires
        0 <= i < v.len(),
    ensures
        header_rows_view(v)[i] == (v[i].key@, v[i].value@),
{
    reveal(header_rows_view);
}

/// A header row added at the end, viewed.
pub proof fn lemma_header_rows_push(v: Seq<HeaderRow>, x: HeaderRow)
    ensures
        header_rows_view(v.push(x)) == header_rows_view(v).push((x.key@, x.value@)),
{
    reveal(header_rows_view);
    assert(header_rows_view(v.push(x)) =~= header_rows_view(v).push((x.key@, x.value@)));
}

/// A header row removed, viewed.
pub proof fn lemma_header_rows_remove(v: Seq<HeaderRow>, i: int)
    requires
        0 <= i < v.len(),
    ensures
        header_rows_view(v.remove(i)) == header_rows_view(v).remove(i),
{
    reveal(header_rows_view);
    assert(header_rows_view(v.remove(i)) =~= header_rows_view(v).remove(i));
}

/// No header rows.
pub proof fn lemma_header_rows_empty(v: Seq<HeaderRow>)
    requires
        v.len() == 0,
    ensures
        header_rows_view(v) == Seq::<(Seq<char>, Seq<char>)>::empty(),
{
    reveal(header_rows_view);
    assert(header_rows_view(v) =~= Seq::<(Seq<char>, Seq<char>)>::empty());
}

/// The view of the environment rows has one entry per row: its key and value.
pub broadcast proof fn lemma_env_rows_view(v: Seq<EnvRow>)
    ensures
        #[trigger] env_rows_view(v).len() == v.len(),
        forall|i: int| 0 <= i < v.len() ==> #[trigger] env_rows_view(v)[i] == (v[i].key@, v[i].value@),
{
    reveal(env_rows_view);
}

impl Default for CreateMode {
    /// No create dialog open.
    fn default() -> (r: CreateMode)
        ensures
            r is Closed,
    {
        CreateMode::Closed
    }
}

impl Default for ConfirmDelete {
    /// No delete waiting for confirmation.
    fn default() -> (r: ConfirmDelete)
        ensures
            r is Closed,
    {
        ConfirmDelete::Closed
    }
}

impl Default for FocusPanel {
    /// The collections panel.
    fn default() -> (r: FocusPanel)
        ensures
            r == FocusPanel::CollectionTree,
    {
        FocusPanel::CollectionTree
    }
}

impl Default for RequestTab {
    /// The headers tab.
    fn default() -> (r: RequestTab)
        ensures
            r == RequestTab::Headers,
    {
        RequestTab::Headers
    }
}

impl Default for ResponseTab {
    /// The body tab.
    fn default() -> (r: ResponseTab)
        ensures
            r == ResponseTab::Body,
    {
        ResponseTab::Body
    }
}

impl Default for EditorField {
    /// The URL field.
    fn default() -> (r: EditorField)
        ensures
            r == EditorField::Url,
    {
        EditorField::Url
    }
}

impl Default for HeaderRow {
    /// A row with an empty name and value.
    fn default() -> (r: HeaderRow)
        ensures
            r.key@ == Seq::<char>::empty(),
            r.value@ == Seq::<char>::empty(),
    {
        HeaderRow { key: Vec::new(), value: Vec::new() }
    }
}

impl Default for EnvRow {
    /// A row with an empty name and value.
    fn default() -> (r: EnvRow)
        ensures
            r.key@ == Seq::<char>::empty(),
            r.value@ == Seq::<char>::empty(),
    {
        EnvRow { key: Vec::new(), value: Vec::new() }
    }
}

/// A screen rectangle.
#[derive(PartialEq, Eq, Structural, Clone, Copy, Debug)]
pub struct Rect {
    pub x: u16,
    pub y: u16,
    pub width: u16,
    pub height: u16,
}

impl Rect {
    /// The empty rectangle at the origin.
    pub fn zero() -> (r: Rect)
        ensures
            r == (Rect { x: 0, y: 0, width: 0, height: 0 }),
    {
        Rect { x: 0, y: 0, width: 0, height: 0 }
    }
}

/// A flattened tree item for rendering.
#[derive(Debug)]
pub struct TreeItem {
    pub display: Vec<char>,
    pub depth: usize,
    pub kind: TreeItemKind,
}

#[derive(Debug)]
pub enum TreeItemKind {
    Directory { path: PathModel, expanded: bool },
    File { collection_index: usize, expanded: bool },
    Request { collection_index: usize, request_index: usize },
}

pub struct TreeItemView {
    pub display: Seq<char>,
    pub depth: usize,
    pub kind: TreeItemKindView,
}

pub enum TreeItemKindView {
    Directory { path: PathView, expanded: bool },
    File { collection_index: usize, expanded: bool },
    Request { collection_index: usize, request_index: usize },
}

pub open spec fn item_kind_view(k: TreeItemKind) -> TreeItemKindView {
    match k {
        TreeItemKind::Directory { path, expanded } => TreeItemKindView::Directory {
            path: path@,
            expanded,
        },
        TreeItemKind::File { collection_index, expanded } => TreeItemKindView::File {
            collection_index,
            expanded,
        },
        TreeItemKind::Request { collection_index, request_index } => TreeItemKindView::Request {
            collection_index,
            request_index,
        },
    }
}

impl View for TreeItem {
    type V = TreeItemView;

    open spec fn view(&self) -> TreeItemView {
        TreeItemView { display: self.display@, depth: self.depth, kind: item_kind_view(self.kind) }
    }
}

#[verifier::opaque]
pub open spec fn items_view(v: Seq<TreeItem>) -> Seq<TreeItemView> {
    v.map_values(|i: TreeItem| i@)
}

/// The view of a list of tree items has one entry per item: its view.
pub broadcast proof fn lemma_items_view(v: Seq<TreeItem>)
    ensures
        #[trigger] items_view(v).len() == v.len(),
        forall|i: int| 0 <= i < v.len() ==> #[trigger] items_view(v)[i] == v[i]@,
{
    reveal(items_view);
}

/// The depth of the next level down (it stops growing at `usize::MAX`).
pub open spec fn next_depth(d: usize) -> usize {
    if d < usize::MAX {
        (d + 1) as usize
    } else {
        d
    }
}

/// The items a collection file's requests show as, one per request.
pub open spec fn request_items(reqs: Seq<RequestView>, col: usize, depth: usize) -> Seq<TreeItemView> {
    Seq::new(
        reqs.len(),
        |i: int|
            TreeItemView {
                display: reqs[i].name,
                depth,
                kind: TreeItemKindView::Request { collection_index: col, request_index: i as usize },
            },
    )
}

/// The visible items of the first `k` nodes: each node, then (when it is an
/// expanded directory) its children one level deeper, or (when it is an
/// expanded collection file) its requests one level deeper.
#[verifier::opaque]
pub open spec fn items_upto(
    nodes: Seq<TreeNodeView>,
    k: nat,
    depth: usize,
    exp: Set<usize>,
    cols: Seq<CollectionFileView>,
) -> Seq<TreeItemView>
    decreases nodes, k,
{
    if k == 0 || k > nodes.len() {
        Seq::empty()
    } else {
        items_upto(nodes, (k - 1) as nat, depth, exp, cols) + items_of_node(
            nodes[k - 1],
            depth,
            exp,
            cols,
        )
    }
}

#[verifier::opaque]
pub open spec fn items_of_node(
    n: TreeNodeView,
    depth: usize,
    exp: Set<usize>,
    cols: Seq<CollectionFileView>,
) -> Seq<TreeItemView>
    decreases n, 0nat,
{
    match n.kind {
        TreeKindView::Directory { children, expanded } => seq![
            TreeItemView {
                display: n.name,
                depth,
                kind: TreeItemKindView::Directory { path: n.path, expanded },
            },
        ] + if expanded {
            items_upto(children, children.len(), next_depth(depth), exp, cols)
        } else {
            Seq::empty()
        },
        TreeKindView::File { collection_index } => seq![
            TreeItemView {
                display: n.name,
                depth,
                kind: TreeItemKindView::File {
                    collection_index,
                    expanded: exp.contains(collection_index),
                },
            },
        ] + if exp.contains(collection_index) && collection_index < cols.len() {
            request_items(
                cols[collection_index as int].collection.requests,
                collection_index,
                next_depth(depth),
            )
        } else {
            Seq::empty()
        },
    }
}

/// The visible items of a list of nodes.
pub open spec fn items_of(
    nodes: Seq<TreeNodeView>,
    depth: usize,
    exp: Set<usize>,
    cols: Seq<CollectionFileView>,
) -> Seq<TreeItemView> {
    items_upto(nodes, nodes.len(), depth, exp, cols)
}

pub proof fn lemma_items_view_push(s: Seq<TreeItem>, x: TreeItem)
    ensures
        items_view(s.push(x)) == items_view(s).push(x@),
{
    reveal(items_view);
    assert(items_view(s.push(x)) =~= items_view(s).push(x@));
}


pub open spec fn request_items_upto(reqs: Seq<RequestView>, col: usize, depth: usize, k: int) -> Seq<
    TreeItemView,
> {
    request_items(reqs, col, depth).take(k)
}



/// The whole state of the application.
pub struct App {
    pub focus: FocusPanel,
    /// A text field is receiving typed input.
    pub editing: bool,
    pub should_quit: bool,
    pub collections_rect: Rect,
    pub request_rect: Rect,
    pub response_rect: Rect,
    /// Screen row of the first tree item.
    pub tree_items_y: u16,
    pub collections: Vec<CollectionFile>,
    pub tree_nodes: Vec<TreeNode>,
    /// Collection files that show their requests as sub-items.
    pub collection_expanded: HashSet<usize>,
    /// Flattened visible list of tree items.
    pub tree_items: Vec<TreeItem>,
    pub tree_selected: usize,
    pub current_request: Request,
    pub current_collection_path: Option<PathModel>,
    pub current_request_index: Option<usize>,
    pub request_tab: RequestTab,
    pub editor_field: EditorField,
    pub header_rows: Vec<HeaderRow>,
    pub header_selected: usize,
    /// Editing the key column (else the value column).
    pub header_edit_key: bool,
    pub url_cursor: usize,
    pub name_cursor: usize,
    pub body_cursor: usize,
    pub body_scroll: u16,
    pub body_scroll_x: u16,
    pub header_cursor: usize,
    pub response: Option<AppResponse>,
    pub response_tab: ResponseTab,
    pub response_scroll: u16,
    pub response_scroll_x: u16,
    pub is_loading: bool,
    /// Selection in the response body, as (line, column).
    pub response_sel_start: Option<(usize, usize)>,
    pub response_sel_end: Option<(usize, usize)>,
    pub response_is_selecting: bool,
    pub response_body_rect: Rect,
    pub status_message: Vec<char>,
    pub show_help: bool,
    pub create_mode: CreateMode,
    pub confirm_delete: ConfirmDelete,
    pub env: Environment,
    pub show_env_editor: bool,
    /// Editable rows of the environment editor.
    pub env_rows: Vec<EnvRow>,
    pub env_selected: usize,
    pub env_edit_key: bool,
    pub env_cursor: usize,
    pub collections_root: PathModel,
    pub show_dir_input: bool,
    pub dir_input: Vec<char>,
    pub dir_input_cursor: usize,
}

pub struct AppView {
    pub focus: FocusPanel,
    pub editing: bool,
    pub should_quit: bool,
    pub collections_rect: Rect,
    pub request_rect: Rect,
    pub response_rect: Rect,
    pub tree_items_y: u16,
    pub collections: Seq<CollectionFileView>,
    pub tree_nodes: Seq<TreeNodeView>,
    pub collection_expanded: Set<usize>,
    pub tree_items: Seq<TreeItemView>,
    pub tree_selected: usize,
    pub current_request: RequestView,
    pub current_collection_path: Option<PathView>,
    pub current_request_index: Option<usize>,
    pub request_tab: RequestTab,
    pub editor_field: EditorField,
    pub header_rows: Seq<(Seq<char>, Seq<char>)>,
    pub header_selected: usize,
    pub header_edit_key: bool,
    pub url_cursor: usize,
    pub name_cursor: usize,
    pub body_cursor: usize,
    pub body_scroll: u16,
    pub body_scroll_x: u16,
    pub header_cursor: usize,
    pub response: Option<AppResponseView>,
    pub response_tab: ResponseTab,
    pub response_scroll: u16,
    pub response_scroll_x: u16,
    pub is_loading: bool,
    pub response_sel_start: Option<(usize, usize)>,
    pub response_sel_end: Option<(usize, usize)>,
    pub response_is_selecting: bool,
    pub response_body_rect: Rect,
    pub status_message: Seq<char>,
    pub show_help: bool,
    pub create_mode: CreateModeView,
    pub confirm_delete: ConfirmDeleteView,
    pub env: Seq<(Seq<char>, Seq<char>)>,
    pub show_env_editor: bool,
    pub env_rows: Seq<(Seq<char>, Seq<char>)>,
    pub env_selected: usize,
    pub env_edit_key: bool,
    pub env_cursor: usize,
    pub collections_root: PathView,
    pub show_dir_input: bool,
    pub dir_input: Seq<char>,
    pub dir_input_cursor: usize,
}

pub open spec fn opt_path_view(o: Option<PathModel>) -> Option<PathView> {
    match o {
        Some(p) => Some(p@),
        None => None,
    }
}

pub open spec fn opt_response_view(o: Option<AppResponse>) -> Option<AppResponseView> {
    match o {
        Some(r) => Some(r@),
        None => None,
    }
}

impl View for App {
    type V = AppView;

    open spec fn view(&self) -> AppView {
        AppView {
            focus: self.focus,
            editing: self.editing,
            should_quit: self.should_quit,
            collections_rect: self.collections_rect,
            request_rect: self.request_rect,
            response_rect: self.response_rect,
            tree_items_y: self.tree_items_y,
            collections: files_view(self.collections@),
            tree_nodes: nodes_view(self.tree_nodes@),
            collection_expanded: self.collection_expanded@,
            tree_items: items_view(self.tree_items@),
            tree_selected: self.tree_selected,
            current_request: self.current_request@,
            current_collection_path: opt_path_view(self.current_collection_path),
            current_request_index: self.current_request_index,
            request_tab: self.request_tab,
            editor_field: self.editor_field,
            header_rows: header_rows_view(self.header_rows@),
            header_selected: self.header_selected,
            header_edit_key: self.header_edit_key,
            url_cursor: self.url_cursor,
            name_cursor: self.name_cursor,
            body_cursor: self.body_cursor,
            body_scroll: self.body_scroll,
            body_scroll_x: self.body_scroll_x,
            header_cursor: self.header_cursor,
            response: opt_response_view(self.response),
            response_tab: self.response_tab,
            response_scroll: self.response_scroll,
            response_scroll_x: self.response_scroll_x,
            is_loading: self.is_loading,
            response_sel_start: self.response_sel_start,
            response_sel_end: self.response_sel_end,
            response_is_selecting: self.response_is_selecting,
            response_body_rect: self.response_body_rect,
            status_message: self.status_message@,
            show_help: self.show_help,
            create_mode: self.create_mode@,
            confirm_delete: self.confirm_delete@,
            env: self.env.vars(),
            show_env_editor: self.show_env_editor,
            env_rows: env_rows_view(self.env_rows@),
            env_selected: self.env_selected,
            env_edit_key: self.env_edit_key,
            env_cursor: self.env_cursor,
            collections_root: self.collections_root@,
            show_dir_input: self.show_dir_input,
            dir_input: self.dir_input@,
            dir_input_cursor: self.dir_input_cursor,
        }
    }
}

/// The item that stands for the collections root at the top of the tree.
pub open spec fn root_item(root: PathView) -> TreeItemView {
    TreeItemView {
        display: seq!['/'],
        depth: 0,
        kind: TreeItemKindView::Directory { path: root, expanded: true },
    }
}

/// Index of the first pair named `k`, if any.
#[verifier::opaque]
pub open spec fn key_index(m: Seq<(Seq<char>, Seq<char>)>, k: Seq<char>) -> Option<int>
    decreases m.len(),
{
    if m.len() == 0 {
        None
    } else {
        match key_index(m.drop_last(), k) {
            Some(i) => Some(i),
            None => if m.last().0 == k {
                Some(m.len() - 1)
            } else {
                None
            },
        }
    }
}

pub proof fn lemma_key_index(m: Seq<(Seq<char>, Seq<char>)>, k: Seq<char>)
    ensures
        key_index(m, k) matches Some(i) ==> 0 <= i < m.len() && m[i].0 == k && forall|j: int|
            0 <= j < i ==> m[j].0 != k,
        key_index(m, k) is None ==> forall|j: int| 0 <= j < m.len() ==> m[j].0 != k,
    decreases m.len(),
{
    reveal(key_index);
    if m.len() > 0 {
        lemma_key_index(m.drop_last(), k);
        assert forall|j: int| 0 <= j < m.len() - 1 implies m[j] == m.drop_last()[j] by {}
    }
}

/// Set `k` to `v`: replace the value of the pair named `k`, or add the pair
/// at the end (`HashMap::insert`, on a list that keeps insertion order).
pub open spec fn map_insert(m: Seq<(Seq<char>, Seq<char>)>, k: Seq<char>, v: Seq<char>) -> Seq<
    (Seq<char>, Seq<char>),
> {
    match key_index(m, k) {
        Some(i) => m.update(i, (k, v)),
        None => m.push((k, v)),
    }
}

/// The headers of the first `n` rows: each row with a non-empty key sets
/// that header, later rows winning.
#[verifier::opaque]
pub open spec fn rows_to_headers(rows: Seq<(Seq<char>, Seq<char>)>, n: nat) -> Seq<
    (Seq<char>, Seq<char>),
>
    decreases n,
{
    if n == 0 || n > rows.len() {
        Seq::empty()
    } else {
        let m = rows_to_headers(rows, (n - 1) as nat);
        if rows[n - 1].0.len() == 0 {
            m
        } else {
            map_insert(m, rows[n - 1].0, rows[n - 1].1)
        }
    }
}

/// Order of selection positions: by line, then by column.
pub open spec fn pos_le(a: (usize, usize), b: (usize, usize)) -> bool {
    a.0 < b.0 || (a.0 == b.0 && a.1 <= b.1)
}

pub open spec fn body_len(b: Option<Seq<char>>) -> usize {
    match b {
        Some(t) => t.len() as usize,
        None => 0,
    }
}

/// Each character of a relative path, with `/` and `\\` shown as ` / `.
#[verifier::opaque]
pub open spec fn breadcrumb(t: Seq<char>) -> Seq<char>
    decreases t.len(),
{
    if t.len() == 0 {
        Seq::empty()
    } else {
        (if t[0] == '/' || t[0] == '\\' {
            seq![' ', '/', ' ']
        } else {
            seq![t[0]]
        }) + breadcrumb(t.drop_first())
    }
}

/// A header with `{{VAR}}` substituted in its name and value.
pub open spec fn subst_pair(p: (Seq<char>, Seq<char>), vars: Seq<(Seq<char>, Seq<char>)>) -> (
    Seq<char>,
    Seq<char>,
) {
    (substitute_all(p.0, vars), substitute_all(p.1, vars))
}

/// The first `n` headers with every `{{VAR}}` substituted in names and
/// values, set one after the other: a header whose substituted name was
/// already set replaces that value (the later one wins).
pub open spec fn resolved_headers(
    h: Seq<(Seq<char>, Seq<char>)>,
    vars: Seq<(Seq<char>, Seq<char>)>,
    n: nat,
) -> Seq<(Seq<char>, Seq<char>)>
    decreases n,
{
    if n == 0 || n > h.len() {
        Seq::empty()
    } else {
        let p = subst_pair(h[n - 1], vars);
        map_insert(resolved_headers(h, vars, (n - 1) as nat), p.0, p.1)
    }
}

impl AppView {
    /// What the event handlers rely on: whenever there are header or
    /// environment rows, the selected one exists; the cursors of the create
    /// and change-root dialogs lie within their text.
    pub open spec fn wf(self) -> bool {
        &&& (self.header_rows.len() == 0 || self.header_selected < self.header_rows.len())
        &&& (self.env_rows.len() == 0 || self.env_selected < self.env_rows.len())
        &&& match self.create_mode {
            CreateModeView::Folder { input, cursor, .. } => cursor <= input.len(),
            CreateModeView::Collection { input, cursor, .. } => cursor <= input.len(),
            CreateModeView::Closed => true,
        }
        &&& self.dir_input_cursor <= self.dir_input.len()
    }

    /// The tree items for the current nodes: the root item, then the
    /// visible nodes one level below it.
    pub open spec fn rebuilt_items(self) -> Seq<TreeItemView> {
        seq![root_item(self.collections_root)] + items_of(
            self.tree_nodes,
            1,
            self.collection_expanded,
            self.collections,
        )
    }

    pub open spec fn rebuild(self) -> AppView {
        AppView { tree_items: self.rebuilt_items(), ..self }
    }

    /// Load request `ri` of collection `ci` into the editor (nothing when
    /// there is no such request).
    pub open spec fn load_request(self, ci: usize, ri: usize) -> AppView {
        if ci < self.collections.len() && ri < self.collections[ci as int].collection.requests.len() {
            let req = self.collections[ci as int].collection.requests[ri as int];
            AppView {
                current_request: req,
                current_collection_path: Some(self.collections[ci as int].path),
                current_request_index: Some(ri),
                header_rows: req.headers,
                url_cursor: req.url.len() as usize,
                name_cursor: req.name.len() as usize,
                body_cursor: body_len(req.body),
                body_scroll: 0,
                body_scroll_x: 0,
                header_selected: 0,
                status_message: "Loaded: "@ + req.name,
                ..self
            }
        } else {
            self
        }
    }

    /// The request with the header rows written back into it.
    pub open spec fn sync_headers(self) -> AppView {
        AppView {
            current_request: RequestView {
                headers: rows_to_headers(self.header_rows, self.header_rows.len()),
                ..self.current_request
            },
            ..self
        }
    }

    /// The directory of collection `ci`, or the root.
    pub open spec fn collection_dir(self, ci: usize) -> PathView {
        if ci < self.collections.len() {
            match self.collections[ci as int].path.parent() {
                Some(p) => p,
                None => self.collections_root,
            }
        } else {
            self.collections_root
        }
    }

    /// The directory a new item goes into, from the selection.
    pub open spec fn create_parent(self) -> PathView {
        if self.tree_selected < self.tree_items.len() {
            match self.tree_items[self.tree_selected as int].kind {
                TreeItemKindView::Directory { path, .. } => path,
                TreeItemKindView::File { collection_index, .. } => self.collection_dir(
                    collection_index,
                ),
                TreeItemKindView::Request { collection_index, .. } => self.collection_dir(
                    collection_index,
                ),
            }
        } else {
            self.collections_root
        }
    }

    /// The directory a new sibling of the selection goes into: the parent of
    /// a selected directory (never above the root), or the directory of a
    /// selected file or request.
    pub open spec fn sibling_parent(self) -> PathView {
        if self.tree_selected < self.tree_items.len() {
            match self.tree_items[self.tree_selected as int].kind {
                TreeItemKindView::Directory { path, .. } => {
                    let parent = match path.parent() {
                        Some(p) => p,
                        None => self.collections_root,
                    };
                    if parent.starts_with(self.collections_root) {
                        parent
                    } else {
                        self.collections_root
                    }
                },
                TreeItemKindView::File { collection_index, .. } => self.collection_dir(
                    collection_index,
                ),
                TreeItemKindView::Request { collection_index, .. } => self.collection_dir(
                    collection_index,
                ),
            }
        } else {
            self.collections_root
        }
    }

    /// The breadcrumb of the directory a new item would go into:
    /// `/` for the root, else `/ a / b` for the path below the root.
    pub open spec fn dir_display(self) -> Seq<char> {
        match self.create_parent().strip_prefix(self.collections_root) {
            Some(rel) => if rel.text().len() > 0 {
                seq!['/', ' '] + breadcrumb(rel.text())
            } else {
                seq!['/']
            },
            None => seq!['/'],
        }
    }

    /// The selection with its ends in reading order.
    pub open spec fn normalized_selection(self) -> Option<((usize, usize), (usize, usize))> {
        match (self.response_sel_start, self.response_sel_end) {
            (Some(s), Some(e)) => if pos_le(s, e) {
                Some((s, e))
            } else {
                Some((e, s))
            },
            _ => None,
        }
    }

    /// The current request with every `{{VAR}}` substituted in its URL,
    /// header names and values, and body; headers whose names become the
    /// same are merged, the later one winning.
    pub open spec fn resolved(self) -> RequestView {
        RequestView {
            url: substitute_all(self.current_request.url, self.env),
            headers: resolved_headers(
                self.current_request.headers,
                self.env,
                self.current_request.headers.len(),
            ),
            body: match self.current_request.body {
                Some(b) => Some(substitute_all(b, self.env)),
                None => None,
            },
            ..self.current_request
        }
    }
}





/// The collections with the requests of collection `ci` replaced.
pub open spec fn with_requests(cols: Seq<CollectionFileView>, ci: int, reqs: Seq<RequestView>) -> Seq<
    CollectionFileView,
> {
    cols.update(
        ci,
        CollectionFileView {
            collection: crate::models::CollectionView { requests: reqs, ..cols[ci].collection },
            ..cols[ci]
        },
    )
}

/// The name of a new request.
pub open spec fn new_request_name() -> Seq<char> {
    "New Request"@
}

/// The text with every trailing copy of `suffix` removed (`trim_end_matches`).
#[verifier::opaque]
pub open spec fn strip_suffixes(t: Seq<char>, suffix: Seq<char>) -> Seq<char>
    decreases t.len(),
{
    if suffix.len() > 0 && crate::text::has_suffix(t, suffix) {
        strip_suffixes(t.take(t.len() - suffix.len()), suffix)
    } else {
        t
    }
}

/// The file name a new collection gets: the typed name, with `.yaml` added
/// unless it already ends in `.yaml` or `.yml`.
pub open spec fn collection_file_name(raw: Seq<char>) -> Seq<char> {
    if crate::text::has_suffix(raw, ".yaml"@) || crate::text::has_suffix(raw, ".yml"@) {
        raw
    } else {
        raw + ".yaml"@
    }
}

/// The name inside a new collection: the typed name without `.yaml` and
/// `.yml` endings.
pub open spec fn collection_stem(raw: Seq<char>) -> Seq<char> {
    strip_suffixes(strip_suffixes(raw, ".yaml"@), ".yml"@)
}

/// The text of a new, empty collection file.
pub open spec fn collection_template(stem: Seq<char>) -> Seq<char> {
    "name: "@ + stem + "\nrequests: []\n"@
}

/// The variables of the first `n` editor rows: each row whose key is not
/// blank sets the variable named by its trimmed key, later rows winning.
#[verifier::opaque]
pub open spec fn rows_to_vars(rows: Seq<(Seq<char>, Seq<char>)>, n: nat) -> Seq<
    (Seq<char>, Seq<char>),
>
    decreases n,
{
    if n == 0 || n > rows.len() {
        Seq::empty()
    } else {
        let m = rows_to_vars(rows, (n - 1) as nat);
        let k = crate::text::trim(rows[n - 1].0);
        if k.len() == 0 {
            m
        } else {
            map_insert(m, k, rows[n - 1].1)
        }
    }
}

/// What the create dialog asks to be written to disk.
#[derive(Debug)]
pub enum CreatePlan {
    /// Nothing to create (the dialog was empty); the parent is still made.
    Nothing { parent: PathModel },
    Folder { parent: PathModel, name: Vec<char> },
    Collection { parent: PathModel, file_name: Vec<char>, template: Vec<char> },
}

pub enum CreatePlanView {
    Nothing { parent: PathView },
    Folder { parent: PathView, name: Seq<char> },
    Collection { parent: PathView, file_name: Seq<char>, template: Seq<char> },
}

impl View for CreatePlan {
    type V = CreatePlanView;

    open spec fn view(&self) -> CreatePlanView {
        match self {
            CreatePlan::Nothing { parent } => CreatePlanView::Nothing { parent: parent@ },
            CreatePlan::Folder { parent, name } => CreatePlanView::Folder {
                parent: parent@,
                name: name@,
            },
            CreatePlan::Collection { parent, file_name, template } => CreatePlanView::Collection {
                parent: parent@,
                file_name: file_name@,
                template: template@,
            },
        }
    }
}

/// How carrying out a create plan went.
#[derive(Debug)]
pub enum CreateOutcome {
    Created,
    AlreadyExists,
    Failed(Vec<char>),
}

/// A request added to a collection, still to be saved.
#[derive(Debug)]
pub struct AddedRequest {
    pub collection_index: usize,
    pub request_index: usize,
    pub path: PathModel,
}

/// A request removed from a collection, still to be saved.
#[derive(Debug)]
pub struct DeletedRequest {
    pub collection_index: usize,
    pub request_index: usize,
    pub name: Vec<char>,
}

impl AppView {
    /// New collections and tree: every file collapsed, items rebuilt, the
    /// selection kept within the items.
    pub open spec fn reloaded(self, cols: Seq<CollectionFileView>, nodes: Seq<TreeNodeView>) -> AppView {
        let a = AppView {
            collections: cols,
            tree_nodes: nodes,
            collection_expanded: Set::empty(),
            ..self
        }.rebuild();
        if a.tree_selected >= a.tree_items.len() && a.tree_items.len() > 0 {
            AppView { tree_selected: (a.tree_items.len() - 1) as usize, ..a }
        } else {
            a
        }
    }

    /// Enter on the selected tree item: a directory (other than the root)
    /// expands or collapses; a collection file shows or hides its requests;
    /// a request is loaded into the editor, focused on the URL.
    pub open spec fn select_item(self) -> AppView {
        if self.tree_selected < self.tree_items.len() {
            match self.tree_items[self.tree_selected as int].kind {
                TreeItemKindView::Directory { path, .. } => if path != self.collections_root {
                    AppView { tree_nodes: toggle_from(self.tree_nodes, path), ..self }.rebuild()
                } else {
                    self
                },
                TreeItemKindView::File { collection_index, expanded } => AppView {
                    collection_expanded: if expanded {
                        self.collection_expanded.remove(collection_index)
                    } else {
                        self.collection_expanded.insert(collection_index)
                    },
                    ..self
                }.rebuild(),
                TreeItemKindView::Request { collection_index, request_index } => AppView {
                    editor_field: EditorField::Url,
                    ..self.load_request(collection_index, request_index)
                },
            }
        } else {
            self
        }
    }

    /// An empty editor: a new request, attached to no collection.
    pub open spec fn reset_editor(self) -> AppView {
        AppView {
            current_request: blank_request(new_request_name()),
            current_collection_path: None,
            current_request_index: None,
            name_cursor: 0,
            url_cursor: 0,
            header_rows: Seq::empty(),
            ..self
        }
    }

    /// The request stored in collection `ci`: over request `ri` when it is
    /// the one being edited, else appended (and then being edited).
    pub open spec fn stored_at(self, ci: int) -> AppView {
        let reqs = self.collections[ci].collection.requests;
        match self.current_request_index {
            Some(ri) => if ri < reqs.len() {
                AppView {
                    collections: with_requests(
                        self.collections,
                        ci,
                        reqs.update(ri as int, self.current_request),
                    ),
                    ..self
                }
            } else {
                AppView {
                    collections: with_requests(self.collections, ci, reqs.push(self.current_request)),
                    current_request_index: Some(reqs.len() as usize),
                    ..self
                }
            },
            None => AppView {
                collections: with_requests(self.collections, ci, reqs.push(self.current_request)),
                current_request_index: Some(reqs.len() as usize),
                ..self
            },
        }
    }

    /// Store the edited request in its collection: over the request it was
    /// loaded from, or appended.  The result names the collection to save,
    /// or the reason there is none.
    pub open spec fn store_request(self) -> (AppView, Result<Option<usize>, Seq<char>>) {
        let a = self.sync_headers();
        match a.current_collection_path {
            None => (a, Err("No collection file associated"@)),
            Some(path) => match crate::storage::position_of_path(a.collections, path) {
                None => (a, Ok(None)),
                Some(ci) => (a.stored_at(ci), Ok(Some(ci as usize))),
            },
        }
    }

    /// The collection the selection belongs to, if it is a file or request.
    pub open spec fn selected_collection(self) -> Option<usize> {
        if self.tree_selected < self.tree_items.len() {
            match self.tree_items[self.tree_selected as int].kind {
                TreeItemKindView::File { collection_index, .. } => Some(collection_index),
                TreeItemKindView::Request { collection_index, .. } => Some(collection_index),
                TreeItemKindView::Directory { .. } => None,
            }
        } else {
            None
        }
    }

    /// Append a new request to the selected collection.
    pub open spec fn add_request(self) -> (AppView, Option<(usize, usize, PathView)>) {
        match self.selected_collection() {
            None => (
                AppView {
                    status_message: "Select a collection file first, then press 'a' to add a request"@,
                    ..self
                },
                None,
            ),
            Some(ci) => if ci < self.collections.len() {
                let reqs = self.collections[ci as int].collection.requests;
                (
                    AppView {
                        collections: with_requests(
                            self.collections,
                            ci as int,
                            reqs.push(blank_request(new_request_name())),
                        ),
                        ..self
                    },
                    Some((ci, reqs.len() as usize, self.collections[ci as int].path)),
                )
            } else {
                (self, None)
            },
        }
    }

    /// After the new request was saved and the collections reloaded: show
    /// the collection's requests and start editing the new request's name.
    pub open spec fn added_request(self, ci: usize, ri: usize, path: PathView) -> AppView {
        let ci2 = match crate::storage::position_of_path(self.collections, path) {
            Some(i) => i as usize,
            None => ci,
        };
        let a = AppView { collection_expanded: self.collection_expanded.insert(ci2), ..self }.rebuild();
        let b = a.load_request(ci2, ri);
        AppView {
            name_cursor: b.current_request.name.len() as usize,
            editor_field: EditorField::Name,
            editing: true,
            ..b
        }
    }

    /// Remove the selected request from its collection.
    pub open spec fn delete_request(self) -> (AppView, Option<(usize, usize, Seq<char>)>) {
        if self.tree_selected < self.tree_items.len() {
            match self.tree_items[self.tree_selected as int].kind {
                TreeItemKindView::Request { collection_index: ci, request_index: ri } => if ci
                    < self.collections.len() && ri < self.collections[ci as int].collection.requests.len() {
                    let reqs = self.collections[ci as int].collection.requests;
                    (
                        AppView {
                            collections: with_requests(self.collections, ci as int, reqs.remove(ri as int)),
                            ..self
                        },
                        Some((ci, ri, reqs[ri as int].name)),
                    )
                } else {
                    (self, None)
                },
                _ => (AppView { status_message: "Select a request item to delete"@, ..self }, None),
            }
        } else {
            (self, None)
        }
    }

    /// After the removal was saved: clear the editor when it showed that
    /// request, and report it.
    pub open spec fn deleted_request(self, ci: usize, ri: usize, name: Seq<char>) -> AppView {
        let a = if ci < self.collections.len() && self.current_collection_path == Some(
            self.collections[ci as int].path,
        ) && self.current_request_index == Some(ri) {
            self.reset_editor()
        } else {
            self
        };
        AppView { status_message: "Deleted request: "@ + name, ..a }
    }

    /// Ask to delete the selected item: the root cannot be deleted; a folder
    /// or file asks for confirmation; a request is removed at once.
    pub open spec fn prompt_delete(self) -> (AppView, Option<(usize, usize, Seq<char>)>) {
        if self.tree_selected < self.tree_items.len() {
            match self.tree_items[self.tree_selected as int].kind {
                TreeItemKindView::Directory { path, .. } => if path == self.collections_root {
                    (AppView { status_message: "Cannot delete the root directory"@, ..self }, None)
                } else {
                    let name = match path.file_name() {
                        Some(n) => n,
                        None => "this folder"@,
                    };
                    (
                        AppView {
                            confirm_delete: ConfirmDeleteView::Pending {
                                path,
                                description: "folder \""@ + name + "\" and ALL its contents"@,
                            },
                            ..self
                        },
                        None,
                    )
                },
                TreeItemKindView::File { collection_index: ci, .. } => if ci < self.collections.len() {
                    let p = self.collections[ci as int].path;
                    let name = match p.file_name() {
                        Some(n) => n,
                        None => "this file"@,
                    };
                    (
                        AppView {
                            confirm_delete: ConfirmDeleteView::Pending {
                                path: p,
                                description: "file \""@ + name + "\""@,
                            },
                            ..self
                        },
                        None,
                    )
                } else {
                    (self, None)
                },
                TreeItemKindView::Request { .. } => self.delete_request(),
            }
        } else {
            (self, None)
        }
    }

    /// Confirm the pending delete: the editor is cleared when it showed
    /// something inside the deleted path, and the dialog closes.
    pub open spec fn confirm_delete_step(self) -> (AppView, Option<PathView>) {
        match self.confirm_delete {
            ConfirmDeleteView::Pending { path, .. } => {
                let a = match self.current_collection_path {
                    Some(cp) => if cp.starts_with(path) {
                        self.reset_editor()
                    } else {
                        self
                    },
                    None => self,
                };
                (AppView { confirm_delete: ConfirmDeleteView::Closed, ..a }, Some(path))
            },
            ConfirmDeleteView::Closed => (self, None),
        }
    }

    /// What the create dialog asks for; the dialog closes.
    pub open spec fn create_plan(self) -> (AppView, CreatePlanView) {
        let parent = match self.create_mode.parent() {
            Some(p) => p,
            None => self.collections_root,
        };
        let plan = match self.create_mode {
            CreateModeView::Folder { input, .. } => if crate::text::trim(input).len() > 0 {
                CreatePlanView::Folder { parent, name: crate::text::trim(input) }
            } else {
                CreatePlanView::Nothing { parent }
            },
            CreateModeView::Collection { input, .. } => if crate::text::trim(input).len() > 0 {
                let raw = crate::text::trim(input);
                CreatePlanView::Collection {
                    parent,
                    file_name: collection_file_name(raw),
                    template: collection_template(collection_stem(raw)),
                }
            } else {
                CreatePlanView::Nothing { parent }
            },
            CreateModeView::Closed => CreatePlanView::Nothing { parent },
        };
        (AppView { create_mode: CreateModeView::Closed, ..self }, plan)
    }
}

/// The status line reported for a create plan that was carried out.
pub open spec fn create_report(plan: CreatePlanView, outcome: CreateOutcome) -> Option<Seq<char>> {
    match plan {
        CreatePlanView::Folder { name, .. } => match outcome {
            CreateOutcome::Created => Some("Created folder: "@ + name),
            CreateOutcome::Failed(e) => Some("Error: "@ + e@),
            CreateOutcome::AlreadyExists => None,
        },
        CreatePlanView::Collection { file_name, .. } => match outcome {
            CreateOutcome::Created => Some("Created collection: "@ + file_name),
            CreateOutcome::AlreadyExists => Some("File already exists: "@ + file_name),
            CreateOutcome::Failed(e) => Some("Error: "@ + e@),
        },
        CreatePlanView::Nothing { .. } => None,
    }
}

pub proof fn lemma_files_view_update(s: Seq<CollectionFile>, i: int, x: CollectionFile)
    requires
        0 <= i < s.len(),
    ensures
        files_view(s.update(i, x)) == files_view(s).update(i, x@),
{
    lemma_files_view(s);
    lemma_files_view(s.update(i, x));
    assert(files_view(s.update(i, x)) =~= files_view(s).update(i, x@));
}







} // verus!
