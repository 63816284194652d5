//! Where new collection files and directories go, and how the chosen place is shown.
use vstd::prelude::*;
use std::collections::HashSet;
use crate::app::{
    App, AppView, TreeItemKind, breadcrumb, items_view, lemma_items_view,
};
use crate::models::{
    AppResponse, Environment, HttpMethod, Request, blank_request, copy_pairs, pairs_view,
    requests_view, substitute_all, lemma_pairs_view, lemma_requests_view,
};
use crate::path::{PathModel, PathView};
use crate::storage::{
    CollectionFile, TreeNode, TreeNodeKind, TreeNodeView, files_view, nodes_view, toggled,
    toggle_from, descend, lemma_nodes_view, lemma_nodes_view_update, lemma_files_view,
};
use crate::text::{append, chars_of, copy_text, str_then};

verus! {

impl App {
    pub(crate) fn collection_dir(&self, ci: usize) -> (r: PathModel)
        ensures
            r@ == self@.collection_dir(ci),
    {
        proof {
            lemma_files_view(self.collections@);
        }
        if ci < self.collections.len() {
            proof {
                lemma_files_view(self.collections@);
                assert(files_view(self.collections@)[ci as int] == self.collections@[ci as int]@);
            }
            match self.collections[ci].path.parent() {
                Some(p) => p,
                None => self.collections_root.copy(),
            }
        } else {
            self.collections_root.copy()
        }
    }

    /// The directory in which the next create operation places its item.
    pub fn get_create_parent_path(&self) -> (r: PathModel)
        ensures
            r@ == self@.create_parent(),
    {
        proof {
            lemma_items_view(self.tree_items@);
        }
        if self.tree_selected < self.tree_items.len() {
            proof {
                lemma_items_view(self.tree_items@);
                assert(items_view(self.tree_items@)[self.tree_selected as int]
                    == self.tree_items@[self.tree_selected as int]@);
            }
            match &self.tree_items[self.tree_selected].kind {
                TreeItemKind::Directory { path, .. } => path.copy(),
                TreeItemKind::File { collection_index, .. } => self.collection_dir(*collection_index),
                TreeItemKind::Request { collection_index, .. } => self.collection_dir(
                    *collection_index,
                ),
            }
        } else {
            self.collections_root.copy()
        }
    }

    /// The directory in which a new sibling of the selection is created.
    pub fn get_sibling_parent_path(&self) -> (r: PathModel)
        ensures
            r@ == self@.sibling_parent(),
    {
        proof {
            lemma_items_view(self.tree_items@);
        }
        if self.tree_selected < self.tree_items.len() {
            proof {
                lemma_items_view(self.tree_items@);
                assert(items_view(self.tree_items@)[self.tree_selected as int]
                    == self.tree_items@[self.tree_selected as int]@);
            }
            match &self.tree_items[self.tree_selected].kind {
                TreeItemKind::Directory { path, .. } => {
                    let parent = match path.parent() {
                        Some(p) => p,
                        None => self.collections_root.copy(),
                    };
                    if parent.starts_with(&self.collections_root) {
                        parent
                    } else {
                        self.collections_root.copy()
                    }
                },
                TreeItemKind::File { collection_index, .. } => self.collection_dir(*collection_index),
                TreeItemKind::Request { collection_index, .. } => self.collection_dir(
                    *collection_index,
                ),
            }
        } else {
            self.collections_root.copy()
        }
    }

    /// The breadcrumb of the directory of the current selection.
    pub fn selected_dir_display(&self) -> (r: Vec<char>)
        ensures
            r@ == self@.dir_display(),
    {
        let path = self.get_create_parent_path();
        let mut slash = Vec::new();
        slash.push('/');
        assert(slash@ =~= seq!['/']);
        match path.strip_prefix(&self.collections_root) {
            Some(rel) => {
                let t = rel.text();
                if t.len() == 0 {
                    return slash;
                }
                let mut out = Vec::new();
                out.push('/');
                out.push(' ');
                let mut i: usize = 0;
                assert(out@ =~= seq!['/', ' ']);
                assert(t@.skip(0) =~= t@);
                while i < t.len()
                    invariant
                        i <= t.len(),
                        out@ + breadcrumb(t@.skip(i as int)) == seq!['/', ' '] + breadcrumb(t@),
                    decreases t.len() - i,
                {
                    proof {
                        reveal(breadcrumb);
                        assert(t@.skip(i as int).drop_first() =~= t@.skip(i + 1));
                    }
                    let c = t[i];
                    let ghost before = out@;
                    if c == '/' || c == '\\' {
                        out.push(' ');
                        out.push('/');
                        out.push(' ');
                        assert(out@ =~= before + seq![' ', '/', ' ']);
                    } else {
                        out.push(c);
                        assert(out@ =~= before + seq![c]);
                    }
                    i = i + 1;
                }
                proof {
                    reveal(breadcrumb);
                    assert(t@.skip(i as int) =~= Seq::<char>::empty());
                }
                out
            },
            None => slash,
        }
    }

    /// The path of the environment file in the collections root.
    pub fn env_file_path(&self) -> (r: PathModel)
        ensures
            r@ == self@.collections_root.child("env.yaml"@),
    {
        self.collections_root.child("env.yaml")
    }

    /// Open the change-root dialog, filled in with the current root.
    pub fn open_dir_input(&mut self)
        ensures
            final(self)@ == (AppView {
                dir_input: old(self)@.collections_root.text(),
                dir_input_cursor: old(self)@.collections_root.text().len() as usize,
                show_dir_input: true,
                ..old(self)@
            }),
    {
        self.dir_input = self.collections_root.text();
        self.dir_input_cursor = self.dir_input.len();
        self.show_dir_input = true;
    }
}

} // verus!
