//! The collections tree: flattening it into items, navigating and expanding it.
use vstd::prelude::*;
use std::collections::HashSet;
use crate::app::{
    App, AppView, EditorField, TreeItem, TreeItemKind, TreeItemView, item_kind_view, items_of, items_of_node, items_upto, items_view, lemma_items_view, lemma_items_view_push, request_items, request_items_upto, root_item,
};
use crate::models::{
    AppResponse, Environment, HttpMethod, Request, blank_request, copy_pairs, pairs_view,
    requests_view, substitute_all, lemma_pairs_view, lemma_requests_view,
};
use crate::path::{PathModel, PathView};
use crate::storage::{
    CollectionFile, TreeNode, TreeNodeKind, TreeNodeView, files_view, nodes_view, toggled,
    toggle_from, descend, lemma_nodes_view, lemma_nodes_view_update, lemma_files_view,
};
use crate::text::{append, chars_of, copy_text, str_then};

verus! {

pub(crate) fn append_items(out: &mut Vec<TreeItem>, more: Vec<TreeItem>)
    ensures
        items_view(final(out)@) == items_view(old(out)@) + items_view(more@),
{
    let ghost orig = more@;
    let ghost n = more@.len();
    let mut more = more;
    assert(orig.skip(0) =~= orig);
    while more.len() > 0
        invariant
            more@.len() <= n,
            n == orig.len(),
            more@ == orig.skip(n - more@.len()),
            items_view(out@) == items_view(old(out)@) + items_view(orig).take(n - more@.len()),
        decreases more.len(),
    {
        let ghost before = out@;
        let ghost k = n - more@.len();
        let item = more.remove(0);
        proof {
            assert(item == orig[k]);
        }
        out.push(item);
        proof {
            lemma_items_view_push(before, item);
            lemma_items_view(orig);
            assert(more@ =~= orig.skip(n - more@.len()));
            assert(items_view(orig).take(k + 1) =~= items_view(orig).take(k).push(item@));
        }
    }
    proof {
        lemma_items_view(orig);
        assert(items_view(orig).take(n as int) =~= items_view(orig));
    }
}

/// Flatten the visible part of the tree into items.
pub(crate) fn build_tree_items(
    nodes: &Vec<TreeNode>,
    depth: usize,
    col_expanded: &HashSet<usize>,
    collections: &Vec<CollectionFile>,
) -> (r: Vec<TreeItem>)
    ensures
        items_view(r@) == items_of(nodes_view(nodes@), depth, col_expanded@, files_view(collections@)),
    decreases nodes@,
{
    broadcast use vstd::std_specs::hash::group_hash_axioms;

    let ghost nv = nodes_view(nodes@);
    let ghost cols = files_view(collections@);
    let ghost exp = col_expanded@;
    proof {
        lemma_nodes_view(nodes@);
    }
    let mut items: Vec<TreeItem> = Vec::new();
    proof {
        reveal(items_upto);
        lemma_items_view(items@);
        assert(items_view(items@) =~= items_upto(nv, 0, depth, exp, cols));
    }
    let mut k: usize = 0;
    while k < nodes.len()
        invariant
            k <= nodes.len(),
            nv == nodes_view(nodes@),
            nv.len() == nodes@.len(),
            forall|i: int| 0 <= i < nodes@.len() ==> #[trigger] nv[i] == nodes@[i]@,
            cols == files_view(collections@),
            exp == col_expanded@,
            items_view(items@) == items_upto(nv, k as nat, depth, exp, cols),
        decreases nodes.len() - k,
    {
        let node = &nodes[k];
        let ghost before = items@;
        proof {
            reveal(items_upto);
            reveal(items_of_node);
            crate::storage::lemma_node_view(*node);
        }
        match &node.kind {
            TreeNodeKind::Directory { children, expanded } => {
                let item = TreeItem {
                    display: copy_text(&node.name),
                    depth,
                    kind: TreeItemKind::Directory { path: node.path.copy(), expanded: *expanded },
                };
                items.push(item);
                proof {
                    lemma_items_view_push(before, item);
                }
                if *expanded {
                    let nd = if depth < usize::MAX { depth + 1 } else { depth };
                    let sub = build_tree_items(children, nd, col_expanded, collections);
                    proof {
                        lemma_nodes_view(children@);
                    }
                    append_items(&mut items, sub);
                }
                proof {
                    assert(items_view(items@) =~= items_upto(nv, k as nat, depth, exp, cols)
                        + items_of_node(nv[k as int], depth, exp, cols));
                }
            },
            TreeNodeKind::File { collection_index } => {
                let ci = *collection_index;
                let file_expanded = col_expanded.contains(&ci);
                let item = TreeItem {
                    display: copy_text(&node.name),
                    depth,
                    kind: TreeItemKind::File { collection_index: ci, expanded: file_expanded },
                };
                items.push(item);
                proof {
                    lemma_items_view_push(before, item);
                }
                let ghost mid = items@;
                proof {
                    crate::storage::lemma_files_view(collections@);
                }
                if file_expanded && ci < collections.len() {
                    let nd = if depth < usize::MAX { depth + 1 } else { depth };
                    let reqs = &collections[ci].collection.requests;
                    let ghost rv = requests_view(reqs@);
                    let mut j: usize = 0;
                    while j < reqs.len()
                        invariant
                            j <= reqs.len(),
                            rv == requests_view(reqs@),
                            items_view(items@) == items_view(mid) + request_items_upto(
                                rv,
                                ci,
                                nd,
                                j as int,
                            ),
                        decreases reqs.len() - j,
                    {
                        let ghost b2 = items@;
                        let item = TreeItem {
                            display: copy_text(&reqs[j].name),
                            depth: nd,
                            kind: TreeItemKind::Request { collection_index: ci, request_index: j },
                        };
                        items.push(item);
                        proof {
                            crate::models::lemma_requests_view(reqs@);
                            lemma_items_view_push(b2, item);
                            assert(request_items_upto(rv, ci, nd, j + 1) =~= request_items_upto(
                                rv,
                                ci,
                                nd,
                                j as int,
                            ).push(item@));
                        }
                        j = j + 1;
                    }
                    proof {
                        crate::models::lemma_requests_view(reqs@);
                        assert(request_items_upto(rv, ci, nd, j as int) =~= request_items(
                            rv,
                            ci,
                            nd,
                        ));
                    }
                }
                proof {
                    assert(items_view(items@) =~= items_upto(nv, k as nat, depth, exp, cols)
                        + items_of_node(nv[k as int], depth, exp, cols));
                }
            },
        }
        k = k + 1;
    }
    items
}

/// Toggle the directory node at `path`, visiting the nodes as `toggle_from` does.
pub(crate) fn toggle_dir_in_nodes(nodes: &mut Vec<TreeNode>, path: &PathModel)
    ensures
        nodes_view(final(nodes)@) == toggle_from(nodes_view(old(nodes)@), path@),
    decreases old(nodes)@,
{
    let ghost orig = nodes@;
    let ghost ov = nodes_view(orig);
    proof {
        lemma_nodes_view(orig);
    }
    let mut i: usize = 0;
    assert(ov.subrange(0, ov.len() as int) =~= ov);
    while i < nodes.len()
        invariant
            i <= nodes.len(),
            nodes@.len() == orig.len(),
            old(nodes)@ == orig,
            ov == nodes_view(orig),
            ov.len() == orig.len(),
            forall|j: int| 0 <= j < orig.len() ==> #[trigger] ov[j] == orig[j]@,
            forall|j: int| i <= j < orig.len() ==> nodes@[j] == orig[j],
            nodes_view(nodes@).take(i as int) + toggle_from(ov.subrange(i as int, ov.len() as int), path@)
                == toggle_from(ov, path@),
        decreases nodes.len() - i,
    {
        let ghost before = nodes@;
        let ghost rest = ov.subrange(i as int, ov.len() as int);
        proof {
            reveal(toggle_from);
            reveal(descend);
            lemma_nodes_view(before);
            assert(rest[0] == orig[i as int]@);
        }
        if nodes[i].path.same_as(path) {
            let mut node = nodes.remove(i);
            node.toggle_expand();
            nodes.insert(i, node);
            proof {
                assert(nodes@ =~= before.update(i as int, node));
                lemma_nodes_view_update(before, i as int, node);
                assert(toggle_from(rest, path@) == rest.update(0, toggled(rest[0])));
                assert(nodes_view(nodes@) =~= nodes_view(before).take(i as int) + rest.update(
                    0,
                    toggled(rest[0]),
                ));
            }
            return;
        }
        let mut node = nodes.remove(i);
        proof {
            assert(node == orig[i as int]);
        }
        match &mut node.kind {
            TreeNodeKind::Directory { children, .. } => {
                proof {
                    let c = orig[i as int].kind->Directory_children;
                    assert(*children == c);
                    assert(decreases_to!(orig => orig[i as int]));
                    assert(decreases_to!(orig[i as int] => orig[i as int].kind));
                    assert(decreases_to!(orig[i as int].kind => c));
                    assert(decreases_to!(c => c@));
                    assert(decreases_to!(orig => c@));
                    assert(decreases_to!(old(nodes)@ => (*children)@));
                }
                toggle_dir_in_nodes(children, path);
            },
            TreeNodeKind::File { .. } => {},
        }
        nodes.insert(i, node);
        proof {
            assert(nodes@ =~= before.update(i as int, node));
            lemma_nodes_view_update(before, i as int, node);
            crate::storage::lemma_node_view(node);
            crate::storage::lemma_node_view(orig[i as int]);
            assert(node@ == descend(rest[0], path@));
            assert(rest =~= seq![rest[0]] + ov.subrange(i + 1, ov.len() as int));
            assert(rest.subrange(1, rest.len() as int) =~= ov.subrange(i + 1, ov.len() as int));
            assert(nodes_view(nodes@).take(i + 1) =~= nodes_view(before).take(i as int).push(node@));
        }
        i = i + 1;
    }
    proof {
        lemma_nodes_view(nodes@);
        assert(nodes_view(nodes@).take(i as int) =~= nodes_view(nodes@));
        assert(ov.subrange(i as int, ov.len() as int) =~= Seq::<TreeNodeView>::empty());
        crate::storage::lemma_toggle_from_empty(ov.subrange(i as int, ov.len() as int), path@);
        assert(nodes_view(nodes@) + Seq::<TreeNodeView>::empty() =~= nodes_view(nodes@));
    }
}

/// The root item of the tree.
pub(crate) fn root_tree_item(root: &PathModel) -> (r: TreeItem)
    ensures
        r@ == root_item(root@),
{
    let mut display = Vec::new();
    display.push('/');
    assert(display@ =~= seq!['/']);
    TreeItem {
        display,
        depth: 0,
        kind: TreeItemKind::Directory { path: root.copy(), expanded: true },
    }
}

pub(crate) fn copy_item_kind(k: &TreeItemKind) -> (r: TreeItemKind)
    ensures
        item_kind_view(r) == item_kind_view(*k),
{
    match k {
        TreeItemKind::Directory { path, expanded } => TreeItemKind::Directory {
            path: path.copy(),
            expanded: *expanded,
        },
        TreeItemKind::File { collection_index, expanded } => TreeItemKind::File {
            collection_index: *collection_index,
            expanded: *expanded,
        },
        TreeItemKind::Request { collection_index, request_index } => TreeItemKind::Request {
            collection_index: *collection_index,
            request_index: *request_index,
        },
    }
}

impl App {
    /// Rebuild the flattened tree items from the tree nodes.
    pub fn rebuild_tree_items(&mut self)
        ensures
            final(self)@ == old(self)@.rebuild(),
    {
        let mut items: Vec<TreeItem> = Vec::new();
        let root = root_tree_item(&self.collections_root);
        items.push(root);
        let more = build_tree_items(
            &self.tree_nodes,
            1,
            &self.collection_expanded,
            &self.collections,
        );
        proof {
            lemma_items_view_push(Seq::empty(), root);
            assert(Seq::<TreeItem>::empty().push(root) =~= items@);
            lemma_items_view(Seq::<TreeItem>::empty());
            assert(items_view(Seq::<TreeItem>::empty()) =~= Seq::<TreeItemView>::empty());
        }
        append_items(&mut items, more);
        self.tree_items = items;
    }

    /// Move the tree selection one item up.
    pub fn tree_navigate_up(&mut self)
        ensures
            final(self)@ == (AppView {
                tree_selected: if old(self).tree_selected > 0 {
                    (old(self).tree_selected - 1) as usize
                } else {
                    old(self).tree_selected
                },
                ..old(self)@
            }),
    {
        if self.tree_selected > 0 {
            self.tree_selected = self.tree_selected - 1;
        }
    }

    /// Move the tree selection one item down, if there is one.
    pub fn tree_navigate_down(&mut self)
        ensures
            final(self)@ == (AppView {
                tree_selected: if old(self).tree_selected + 1 < old(self).tree_items.len() {
                    (old(self).tree_selected + 1) as usize
                } else {
                    old(self).tree_selected
                },
                ..old(self)@
            }),
    {
        if self.tree_selected < usize::MAX && self.tree_selected + 1 < self.tree_items.len() {
            self.tree_selected = self.tree_selected + 1;
        }
    }

    /// Take in freshly loaded collections and tree: every file collapsed,
    /// items rebuilt, selection kept within the items.
    pub fn reload_collections(&mut self, collections: Vec<CollectionFile>, tree_nodes: Vec<TreeNode>)
        ensures
            final(self)@ == old(self)@.reloaded(files_view(collections@), nodes_view(tree_nodes@)),
    {
        broadcast use vstd::std_specs::hash::group_hash_axioms;

        self.collections = collections;
        self.tree_nodes = tree_nodes;
        self.collection_expanded.clear();
        self.rebuild_tree_items();
        proof {
            lemma_items_view(self.tree_items@);
        }
        if self.tree_selected >= self.tree_items.len() && self.tree_items.len() > 0 {
            self.tree_selected = self.tree_items.len() - 1;
        }
    }

    /// Expand or collapse the directory node at `path`, and rebuild the items.
    fn toggle_dir_at(&mut self, path: &PathModel)
        ensures
            final(self)@ == (AppView { tree_nodes: toggle_from(old(self)@.tree_nodes, path@), ..old(self)@ }).rebuild(),
    {
        toggle_dir_in_nodes(&mut self.tree_nodes, path);
        self.rebuild_tree_items();
    }

    /// Show or hide the requests of collection file `ci`, and rebuild the
    /// items.
    fn toggle_file_at(&mut self, ci: usize, expanded: bool)
        ensures
            final(self)@ == (AppView {
                collection_expanded: if expanded {
                    old(self)@.collection_expanded.remove(ci)
                } else {
                    old(self)@.collection_expanded.insert(ci)
                },
                ..old(self)@
            }).rebuild(),
    {
        broadcast use vstd::std_specs::hash::group_hash_axioms;

        if expanded {
            self.collection_expanded.remove(&ci);
        } else {
            self.collection_expanded.insert(ci);
        }
        self.rebuild_tree_items();
    }

    /// Load request `ri` of collection `ci` and focus the URL.
    fn open_request(&mut self, ci: usize, ri: usize)
        ensures
            final(self)@ == (AppView { editor_field: EditorField::Url, ..old(self)@.load_request(ci, ri) }),
    {
        self.load_request(ci, ri);
        self.editor_field = EditorField::Url;
    }

    /// Act on the selected tree item (Enter).
    pub fn tree_select_item(&mut self)
        ensures
            final(self)@ == old(self)@.select_item(),
    {
        proof {
            lemma_items_view(self.tree_items@);
        }
        if self.tree_selected < self.tree_items.len() {
            let kind = copy_item_kind(&self.tree_items[self.tree_selected].kind);
            match kind {
                TreeItemKind::Directory { path, .. } => {
                    if !path.same_as(&self.collections_root) {
                        self.toggle_dir_at(&path);
                    }
                },
                TreeItemKind::File { collection_index, expanded } => {
                    self.toggle_file_at(collection_index, expanded);
                },
                TreeItemKind::Request { collection_index, request_index } => {
                    self.open_request(collection_index, request_index);
                },
            }
        }
    }
}

} // verus!
