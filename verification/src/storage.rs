//! Collection files on disk and the directory tree that shows them.
use vstd::prelude::*;
use crate::models::{Collection, CollectionView, Request};
use crate::order::{insertion_order, is_permutation, sorted_order};
use crate::path::{extension, extension_exec, file_stem, file_stem_exec, PathModel, PathView};
use crate::text::{copy_text, text_eq};

verus! {

/// A YAML file on disk paired with the collection parsed from it.
#[derive(Debug)]
pub struct CollectionFile {
    pub path: PathModel,
    pub collection: Collection,
}

pub struct CollectionFileView {
    pub path: PathView,
    pub collection: CollectionView,
}

impl View for CollectionFile {
    type V = CollectionFileView;

    open spec fn view(&self) -> CollectionFileView {
        CollectionFileView { path: self.path@, collection: self.collection@ }
    }
}

#[verifier::opaque]
pub open spec fn files_view(v: Seq<CollectionFile>) -> Seq<CollectionFileView> {
    v.map_values(|c: CollectionFile| c@)
}

/// The view of a list of collection files has one entry per file: its view.
pub broadcast proof fn lemma_files_view(v: Seq<CollectionFile>)
    ensures
        #[trigger] files_view(v).len() == v.len(),
        forall|i: int| 0 <= i < v.len() ==> #[trigger] files_view(v)[i] == v[i]@,
{
    reveal(files_view);
}

/// The first collection file stored at `path`, if any.
#[verifier::opaque]
pub open spec fn position_of_path(cols: Seq<CollectionFileView>, path: PathView) -> Option<int>
    decreases cols.len(),
{
    if cols.len() == 0 {
        None
    } else if cols.last().path == path {
        match position_of_path(cols.drop_last(), path) {
            Some(i) => Some(i),
            None => Some(cols.len() - 1),
        }
    } else {
        position_of_path(cols.drop_last(), path)
    }
}

pub proof fn lemma_position_of_path(cols: Seq<CollectionFileView>, path: PathView)
    ensures
        position_of_path(cols, path) matches Some(i) ==> 0 <= i < cols.len() && cols[i].path == path
            && forall|j: int| 0 <= j < i ==> cols[j].path != path,
        position_of_path(cols, path) is None ==> forall|j: int|
            0 <= j < cols.len() ==> cols[j].path != path,
    decreases cols.len(),
{
    reveal(position_of_path);
    if cols.len() > 0 {
        lemma_position_of_path(cols.drop_last(), path);
        assert forall|j: int| 0 <= j < cols.len() - 1 implies cols[j] == cols.drop_last()[j] by {}
    }
}

/// The index of the first collection file stored at `path`.
pub fn find_collection(cols: &Vec<CollectionFile>, path: &PathModel) -> (r: Option<usize>)
    ensures
        r matches Some(i) ==> position_of_path(files_view(cols@), path@) == Some(i as int),
        r is None ==> position_of_path(files_view(cols@), path@) is None,
{
    let ghost fv = files_view(cols@);
    let mut i: usize = 0;
    while i < cols.len()
        invariant
            i <= cols.len(),
            fv == files_view(cols@),
            forall|j: int| 0 <= j < i ==> fv[j].path != path@,
        decreases cols.len() - i,
    {
        proof {
            lemma_files_view(cols@);
        }
        if cols[i].path.same_as(path) {
            proof {
                lemma_position_of_path(fv, path@);
                assert(fv[i as int].path == path@);
            }
            return Some(i);
        }
        i = i + 1;
    }
    proof {
        lemma_files_view(cols@);
        lemma_position_of_path(fv, path@);
    }
    None
}

/// Whether an extension marks a YAML file.
pub open spec fn is_yaml_extension(ext: Option<Seq<char>>) -> bool {
    ext == Some(seq!['y', 'a', 'm', 'l']) || ext == Some(seq!['y', 'm', 'l'])
}

/// A file name that is loaded as a collection: a `.yaml` or `.yml` file
/// other than the environment file `env.yaml` / `env.yml`.
pub open spec fn is_collection_file_name(name: Seq<char>) -> bool {
    &&& name != seq!['e', 'n', 'v', '.', 'y', 'a', 'm', 'l']
    &&& name != seq!['e', 'n', 'v', '.', 'y', 'm', 'l']
    &&& is_yaml_extension(extension(name))
}

fn yaml_text(short: bool) -> (r: Vec<char>)
    ensures
        r@ == (if short { seq!['y', 'm', 'l'] } else { seq!['y', 'a', 'm', 'l'] }),
{
    let mut r = Vec::new();
    r.push('y');
    if !short {
        r.push('a');
    }
    r.push('m');
    r.push('l');
    proof {
        if short {
            assert(r@ =~= seq!['y', 'm', 'l']);
        } else {
            assert(r@ =~= seq!['y', 'a', 'm', 'l']);
        }
    }
    r
}

/// Whether a file name has the extension `yaml` or `yml`.
pub fn has_yaml_extension(name: &Vec<char>) -> (r: bool)
    ensures
        r == is_yaml_extension(extension(name@)),
{
    match extension_exec(name) {
        Some(e) => text_eq(&e, &yaml_text(false)) || text_eq(&e, &yaml_text(true)),
        None => false,
    }
}

/// Whether a file with this name is loaded as a collection.
pub fn is_collection_file(name: &Vec<char>) -> (r: bool)
    ensures
        r == is_collection_file_name(name@),
{
    let mut env = Vec::new();
    env.push('e');
    env.push('n');
    env.push('v');
    env.push('.');
    let mut env_yaml = copy_text(&env);
    crate::text::append(&mut env_yaml, &yaml_text(false));
    let mut env_yml = env;
    crate::text::append(&mut env_yml, &yaml_text(true));
    assert(env_yaml@ =~= seq!['e', 'n', 'v', '.', 'y', 'a', 'm', 'l']);
    assert(env_yml@ =~= seq!['e', 'n', 'v', '.', 'y', 'm', 'l']);
    !text_eq(name, &env_yaml) && !text_eq(name, &env_yml) && has_yaml_extension(name)
}

/// A node of the collection tree: a directory or a collection file.
#[derive(Debug)]
pub struct TreeNode {
    pub name: Vec<char>,
    pub path: PathModel,
    pub kind: TreeNodeKind,
}

#[derive(Debug)]
pub enum TreeNodeKind {
    Directory { children: Vec<TreeNode>, expanded: bool },
    File { collection_index: usize },
}

pub struct TreeNodeView {
    pub name: Seq<char>,
    pub path: PathView,
    pub kind: TreeKindView,
}

pub enum TreeKindView {
    Directory { children: Seq<TreeNodeView>, expanded: bool },
    File { collection_index: usize },
}

impl TreeNode {
    pub open spec fn view_node(&self) -> TreeNodeView
        decreases self, 0nat,
    {
        TreeNodeView {
            name: self.name@,
            path: self.path@,
            kind: match self.kind {
                TreeNodeKind::Directory { children, expanded } => TreeKindView::Directory {
                    children: nodes_view_upto(children@, children@.len()),
                    expanded,
                },
                TreeNodeKind::File { collection_index } => TreeKindView::File { collection_index },
            },
        }
    }
}

/// The views of the first `k` nodes.
#[verifier::opaque]
pub open spec fn nodes_view_upto(s: Seq<TreeNode>, k: nat) -> Seq<TreeNodeView>
    decreases s, k,
{
    if k == 0 || k > s.len() {
        Seq::empty()
    } else {
        nodes_view_upto(s, (k - 1) as nat).push(s[k - 1].view_node())
    }
}

pub open spec fn nodes_view(s: Seq<TreeNode>) -> Seq<TreeNodeView> {
    nodes_view_upto(s, s.len())
}

impl View for TreeNode {
    type V = TreeNodeView;

    open spec fn view(&self) -> TreeNodeView {
        self.view_node()
    }
}

pub proof fn lemma_nodes_view_upto(s: Seq<TreeNode>, k: nat)
    requires
        k <= s.len(),
    ensures
        nodes_view_upto(s, k).len() == k,
        forall|i: int| 0 <= i < k ==> #[trigger] nodes_view_upto(s, k)[i] == s[i]@,
    decreases k,
{
    reveal(nodes_view_upto);
    if k > 0 {
        lemma_nodes_view_upto(s, (k - 1) as nat);
        assert(nodes_view_upto(s, k) == nodes_view_upto(s, (k - 1) as nat).push(s[k - 1]@));
    }
}

/// What the view of a node is.
pub proof fn lemma_node_view(n: TreeNode)
    ensures
        n@ == (TreeNodeView {
            name: n.name@,
            path: n.path@,
            kind: match n.kind {
                TreeNodeKind::Directory { children, expanded } => TreeKindView::Directory {
                    children: nodes_view(children@),
                    expanded,
                },
                TreeNodeKind::File { collection_index } => TreeKindView::File { collection_index },
            },
        }),
{
    reveal(nodes_view_upto);
}

pub proof fn lemma_nodes_view(s: Seq<TreeNode>)
    ensures
        nodes_view(s).len() == s.len(),
        forall|i: int| 0 <= i < s.len() ==> #[trigger] nodes_view(s)[i] == s[i]@,
{
    lemma_nodes_view_upto(s, s.len());
}

pub proof fn lemma_nodes_view_push(s: Seq<TreeNode>, x: TreeNode)
    ensures
        nodes_view(s.push(x)) == nodes_view(s).push(x@),
{
    lemma_nodes_view(s);
    lemma_nodes_view(s.push(x));
    assert(nodes_view(s.push(x)) =~= nodes_view(s).push(x@));
}

/// A directory node with its expanded flag flipped; a file node as it is.
pub open spec fn toggled(n: TreeNodeView) -> TreeNodeView {
    match n.kind {
        TreeKindView::Directory { children, expanded } => TreeNodeView {
            kind: TreeKindView::Directory { children, expanded: !expanded },
            ..n
        },
        TreeKindView::File { .. } => n,
    }
}

impl TreeNode {
    /// Expand a collapsed directory or collapse an expanded one.
    pub fn toggle_expand(&mut self)
        ensures
            final(self)@ == toggled(old(self)@),
    {
        proof {
            lemma_node_view(*old(self));
        }
        match &mut self.kind {
            TreeNodeKind::Directory { expanded, .. } => {
                *expanded = !*expanded;
            },
            TreeNodeKind::File { .. } => {},
        }
        proof {
            lemma_node_view(*self);
        }
    }
}

/// An entry of a directory listing, with the listing of its own entries
/// when it is a directory.
#[derive(Debug)]
pub struct DirEntryInfo {
    pub name: Vec<char>,
    pub path: PathModel,
    pub is_dir: bool,
    pub children: Vec<DirEntryInfo>,
}

/// The sort keys of a listing: directories first, then by name.
pub open spec fn entry_keys(entries: Seq<DirEntryInfo>) -> Seq<(bool, Seq<char>)> {
    entries.map_values(|e: DirEntryInfo| (e.is_dir, e.name@))
}

/// The tree that shows a directory listing: its entries sorted with
/// directories first and then by name; every directory (expanded, with its
/// own tree); every `.yaml`/`.yml` file that is a loaded collection, under
/// its file stem; nothing for other files.
pub open spec fn tree_of(entries: Seq<DirEntryInfo>, cols: Seq<CollectionFileView>) -> Seq<
    TreeNodeView,
>
    decreases entries, entries.len() + 1,
{
    let perm = insertion_order(entry_keys(entries), entries.len());
    nodes_in_order(entries, perm, cols, if perm.len() <= entries.len() { perm.len() } else { 0 })
}

/// The nodes of the first `k` entries taken in the order `perm`.
pub open spec fn nodes_in_order(
    entries: Seq<DirEntryInfo>,
    perm: Seq<usize>,
    cols: Seq<CollectionFileView>,
    k: nat,
) -> Seq<TreeNodeView>
    decreases entries, k,
{
    if k == 0 || k > entries.len() || k > perm.len() || perm[k - 1] >= entries.len() {
        Seq::empty()
    } else {
        nodes_in_order(entries, perm, cols, (k - 1) as nat) + node_for(
            entries[perm[k - 1] as int],
            cols,
        )
    }
}

/// The node that shows one entry, if any.
pub open spec fn node_for(e: DirEntryInfo, cols: Seq<CollectionFileView>) -> Seq<TreeNodeView>
    decreases e, 0nat,
{
    if e.is_dir {
        seq![
            TreeNodeView {
                name: e.name@,
                path: e.path@,
                kind: TreeKindView::Directory { children: tree_of(e.children@, cols), expanded: true },
            },
        ]
    } else if is_yaml_extension(extension(e.name@)) {
        match position_of_path(cols, e.path@) {
            Some(i) => seq![
                TreeNodeView {
                    name: file_stem(e.name@),
                    path: e.path@,
                    kind: TreeKindView::File { collection_index: i as usize },
                },
            ],
            None => Seq::empty(),
        }
    } else {
        Seq::empty()
    }
}

/// Build the tree of TreeNodes for a directory listing and the collection
/// files that were loaded from it.
pub fn build_tree(entries: &Vec<DirEntryInfo>, collections: &Vec<CollectionFile>) -> (r: Vec<TreeNode>)
    ensures
        nodes_view(r@) == tree_of(entries@, files_view(collections@)),
    decreases entries@,
{
    let ghost cols = files_view(collections@);
    let mut keys: Vec<(bool, Vec<char>)> = Vec::new();
    let mut i: usize = 0;
    while i < entries.len()
        invariant
            i <= entries.len(),
            keys@.len() == i,
            forall|k: int| 0 <= k < i ==> (#[trigger] keys@[k]).0 == entries@[k].is_dir && keys@[k].1@ == entries@[k].name@,
        decreases entries.len() - i,
    {
        keys.push((entries[i].is_dir, copy_text(&entries[i].name)));
        i = i + 1;
    }
    let perm = sorted_order(&keys);
    proof {
        assert(keys@.map_values(|k: (bool, Vec<char>)| (k.0, k.1@)) =~= entry_keys(entries@));
    }
    let mut out: Vec<TreeNode> = Vec::new();
    let mut j: usize = 0;
    proof {
        lemma_nodes_view(out@);
        assert(nodes_view(out@) =~= Seq::<TreeNodeView>::empty());
    }
    while j < perm.len()
        invariant
            j <= perm.len(),
            is_permutation(perm@, entries@.len()),
            perm@ == insertion_order(entry_keys(entries@), entries@.len()),
            cols == files_view(collections@),
            nodes_view(out@) == nodes_in_order(entries@, perm@, cols, j as nat),
        decreases perm.len() - j,
    {
        let p = perm[j];
        let e = &entries[p];
        let ghost before = out@;
        proof {
            lemma_nodes_view(out@);
        }
        if e.is_dir {
            let children = build_tree(&e.children, collections);
            let node = TreeNode {
                name: copy_text(&e.name),
                path: e.path.copy(),
                kind: TreeNodeKind::Directory { children, expanded: true },
            };
            out.push(node);
            proof {
                lemma_nodes_view_push(before, node);
                lemma_node_view(node);
                assert(node@ == node_for(*e, cols)[0]);
                assert(nodes_view(out@) =~= nodes_in_order(entries@, perm@, cols, j as nat) + node_for(*e, cols));
            }
        } else if has_yaml_extension(&e.name) {
            match find_collection(collections, &e.path) {
                Some(idx) => {
                    let node = TreeNode {
                        name: file_stem_exec(&e.name),
                        path: e.path.copy(),
                        kind: TreeNodeKind::File { collection_index: idx },
                    };
                    out.push(node);
                    proof {
                        lemma_nodes_view_push(before, node);
                        lemma_node_view(node);
                        assert(nodes_view(out@) =~= nodes_in_order(entries@, perm@, cols, j as nat)
                            + node_for(*e, cols));
                    }
                },
                None => {
                    assert(nodes_view(out@) =~= nodes_in_order(entries@, perm@, cols, j as nat)
                        + node_for(*e, cols));
                },
            }
        } else {
            assert(nodes_view(out@) =~= nodes_in_order(entries@, perm@, cols, j as nat) + node_for(
                *e,
                cols,
            ));
        }
        j = j + 1;
    }
    out
}

pub proof fn lemma_nodes_view_update(s: Seq<TreeNode>, i: int, x: TreeNode)
    requires
        0 <= i < s.len(),
    ensures
        nodes_view(s.update(i, x)) == nodes_view(s).update(i, x@),
{
    lemma_nodes_view(s);
    lemma_nodes_view(s.update(i, x));
    assert(nodes_view(s.update(i, x)) =~= nodes_view(s).update(i, x@));
}

/// The nodes after toggling the node at `path`: nodes are visited in order;
/// the first node at `path` is toggled and ends the visit of its list; the
/// children of every directory visited before it are visited the same way.
#[verifier::opaque]
pub open spec fn toggle_from(nodes: Seq<TreeNodeView>, path: PathView) -> Seq<TreeNodeView>
    decreases nodes, 1nat,
{
    if nodes.len() == 0 {
        nodes
    } else if nodes[0].path == path {
        nodes.update(0, toggled(nodes[0]))
    } else {
        seq![descend(nodes[0], path)] + toggle_from(nodes.subrange(1, nodes.len() as int), path)
    }
}

/// Visiting no nodes changes nothing.
pub proof fn lemma_toggle_from_empty(nodes: Seq<TreeNodeView>, path: PathView)
    requires
        nodes.len() == 0,
    ensures
        toggle_from(nodes, path) == nodes,
{
    reveal(toggle_from);
}

/// A node whose children (when it is a directory) are visited by `toggle_from`.
#[verifier::opaque]
pub open spec fn descend(n: TreeNodeView, path: PathView) -> TreeNodeView
    decreases n, 0nat,
{
    match n.kind {
        TreeKindView::Directory { children, expanded } => TreeNodeView {
            kind: TreeKindView::Directory { children: toggle_from(children, path), expanded },
            ..n
        },
        TreeKindView::File { .. } => n,
    }
}

} // verus!
