//! Storing the edited request into its collection.
use vstd::prelude::*;
use crate::app::{App, AppView, with_requests};
use crate::models::Request;
use crate::edits::{col_push_request, col_set_request};
use crate::storage::{find_collection, lemma_files_view, lemma_position_of_path};
use crate::models::lemma_requests_view;
use crate::text::chars_of;

verus! {

impl App {
    /// Append `req` to the requests of collection `ci`.
    fn push_to_collection(&mut self, ci: usize, req: Request)
        requires
            ci < old(self).collections.len(),
        ensures
            final(self)@ == (AppView {
                collections: with_requests(
                    old(self)@.collections,
                    ci as int,
                    old(self)@.collections[ci as int].collection.requests.push(req@),
                ),
                ..old(self)@
            }),
    {
        col_push_request(&mut self.collections, ci, req);
    }

    /// Put `req` in place of request `ri` of collection `ci`.
    fn set_in_collection(&mut self, ci: usize, ri: usize, req: Request)
        requires
            ci < old(self).collections.len(),
            ri < old(self)@.collections[ci as int].collection.requests.len(),
        ensures
            final(self)@ == (AppView {
                collections: with_requests(
                    old(self)@.collections,
                    ci as int,
                    old(self)@.collections[ci as int].collection.requests.update(ri as int, req@),
                ),
                ..old(self)@
            }),
    {
        proof {
            lemma_files_view(self.collections@);
            lemma_requests_view(self.collections@[ci as int].collection.requests@);
        }
        col_set_request(&mut self.collections, ci, ri, req);
    }

    /// Mark request `i` of the current collection as the one being edited.
    fn set_request_index(&mut self, i: usize)
        ensures
            final(self)@ == (AppView { current_request_index: Some(i), ..old(self)@ }),
    {
        self.current_request_index = Some(i);
    }

    /// Store the edited request in collection `ci`: over the request being
    /// edited when it is there, else appended (and then being edited).
    fn store_at(&mut self, ci: usize)
        requires
            ci < old(self).collections.len(),
        ensures
            final(self)@ == old(self)@.stored_at(ci as int),
    {
        let ghost a = self@;
        proof {
            lemma_files_view(self.collections@);
            lemma_requests_view(self.collections@[ci as int].collection.requests@);
        }
        let req = self.current_request.copy();
        let n = self.collections[ci].collection.requests.len();
        let append = match self.current_request_index {
            Some(ri) => ri >= n,
            None => true,
        };
        if append {
            self.push_to_collection(ci, req);
            self.set_request_index(n);
            assert(self@ == a.stored_at(ci as int));
        } else {
            let ri = self.current_request_index.unwrap();
            self.set_in_collection(ci, ri, req);
            assert(self@ == a.stored_at(ci as int));
        }
    }

    /// Store the edited request in its collection.  `Ok(Some(i))` names the
    /// collection file to write to disk; `Ok(None)` means no loaded
    /// collection is at the request's path.
    pub fn save_current_request(&mut self) -> (r: Result<Option<usize>, Vec<char>>)
        ensures
            final(self)@ == old(self)@.store_request().0,
            match r {
                Ok(o) => old(self)@.store_request().1 == Ok::<Option<usize>, Seq<char>>(o),
                Err(e) => old(self)@.store_request().1 == Err::<Option<usize>, Seq<char>>(e@),
            },
    {
        self.sync_headers_to_request();
        let path = match &self.current_collection_path {
            None => {
                return Err(chars_of("No collection file associated"));
            },
            Some(p) => p.copy(),
        };
        match find_collection(&self.collections, &path) {
            None => Ok(None),
            Some(ci) => {
                proof {
                    lemma_files_view(self.collections@);
                    lemma_position_of_path(self@.collections, path@);
                }
                self.store_at(ci);
                Ok(Some(ci))
            },
        }
    }
}

} // verus!
