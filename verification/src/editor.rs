//! The request editor: loading a request, header rows, methods and the resolved request.
use vstd::prelude::*;
use std::collections::HashSet;
use crate::app::{
    App, AppView, HeaderRow, header_rows_view, key_index, lemma_header_rows_view, lemma_items_view, lemma_key_index, map_insert, resolved_headers, rows_to_headers, subst_pair,
};
use crate::models::{
    AppResponse, Environment, HttpMethod, Request, RequestView, blank_request, copy_pairs, pairs_view,
    requests_view, substitute_all, lemma_pairs_view, lemma_requests_view,
};
use crate::path::{PathModel, PathView};
use crate::storage::{
    CollectionFile, TreeNode, TreeNodeKind, TreeNodeView, files_view, nodes_view, toggled,
    toggle_from, descend, lemma_nodes_view, lemma_nodes_view_update, lemma_files_view,
};
use crate::text::{append, chars_of, copy_text, str_then};

verus! {

/// The index of the first pair named `k`.
pub fn find_key(m: &Vec<(Vec<char>, Vec<char>)>, k: &Vec<char>) -> (r: Option<usize>)
    ensures
        r matches Some(i) ==> key_index(pairs_view(m@), k@) == Some(i as int),
        r is None ==> key_index(pairs_view(m@), k@) is None,
{
    let ghost mv = pairs_view(m@);
    proof {
        lemma_key_index(mv, k@);
    }
    let mut i: usize = 0;
    while i < m.len()
        invariant
            i <= m.len(),
            mv == pairs_view(m@),
            forall|j: int| 0 <= j < i ==> mv[j].0 != k@,
        decreases m.len() - i,
    {
        proof {
            lemma_pairs_view(m@);
        }
        if crate::text::text_eq(&m[i].0, k) {
            proof {
                assert(mv[i as int].0 == k@);
                lemma_key_index(mv, k@);
            }
            return Some(i);
        }
        i = i + 1;
    }
    proof {
        lemma_pairs_view(m@);
    }
    None
}

/// Set `k` to `v` in a list of pairs.
pub fn pairs_insert(m: &mut Vec<(Vec<char>, Vec<char>)>, k: Vec<char>, v: Vec<char>)
    ensures
        pairs_view(final(m)@) == map_insert(pairs_view(old(m)@), k@, v@),
{
    proof {
        lemma_key_index(pairs_view(m@), k@);
        lemma_pairs_view(m@);
    }
    match find_key(m, &k) {
        Some(i) => {
            let ghost before = m@;
            m.set(i, (k, v));
            proof {
                lemma_pairs_view(m@);
                lemma_pairs_view(before);
                assert(pairs_view(m@) =~= pairs_view(before).update(i as int, (k@, v@)));
            }
        },
        None => {
            let ghost before = m@;
            m.push((k, v));
            proof {
                lemma_pairs_view(m@);
                lemma_pairs_view(before);
                assert(pairs_view(m@) =~= pairs_view(before).push((k@, v@)));
            }
        },
    }
}

impl App {
    /// Load a request of a collection into the editor.
    pub fn load_request(&mut self, col_idx: usize, req_idx: usize)
        ensures
            final(self)@ == old(self)@.load_request(col_idx, req_idx),
    {
        proof {
            lemma_files_view(self.collections@);
            if col_idx < self.collections.len() {
                lemma_requests_view(self.collections@[col_idx as int].collection.requests@);
            }
        }
        if col_idx < self.collections.len()
            && req_idx < self.collections[col_idx].collection.requests.len() {
            let ghost cv = files_view(self.collections@);
            let ghost a = self@;
            let req = self.collections[col_idx].collection.requests[req_idx].copy();
            proof {
                lemma_files_view(self.collections@);
                assert(cv[col_idx as int] == self.collections@[col_idx as int]@);
                lemma_requests_view(self.collections@[col_idx as int].collection.requests@);
                assert(requests_view(self.collections@[col_idx as int].collection.requests@)[req_idx as int]
                    == self.collections@[col_idx as int].collection.requests@[req_idx as int]@);
                assert(req@ == a.collections[col_idx as int].collection.requests[req_idx as int]);
            }
            let path = self.collections[col_idx].path.copy();
            let mut rows: Vec<HeaderRow> = Vec::new();
            proof {
                lemma_header_rows_view(rows@);
            }
            let mut i: usize = 0;
            while i < req.headers.len()
                invariant
                    i <= req.headers.len(),
                    header_rows_view(rows@) == pairs_view(req.headers@).take(i as int),
                decreases req.headers.len() - i,
            {
                let ghost before = rows@;
                rows.push(HeaderRow { key: copy_text(&req.headers[i].0), value: copy_text(&req.headers[i].1) });
                proof {
                    lemma_header_rows_view(rows@);
                    lemma_header_rows_view(before);
                    lemma_pairs_view(req.headers@);
                    assert(header_rows_view(rows@) =~= header_rows_view(before).push(
                        pairs_view(req.headers@)[i as int],
                    ));
                    assert(pairs_view(req.headers@).take(i + 1) =~= pairs_view(req.headers@).take(
                        i as int,
                    ).push(pairs_view(req.headers@)[i as int]));
                }
                i = i + 1;
            }
            proof {
                lemma_header_rows_view(rows@);
                lemma_pairs_view(req.headers@);
                assert(pairs_view(req.headers@).take(i as int) =~= pairs_view(req.headers@));
            }
            self.url_cursor = req.url.len();
            self.name_cursor = req.name.len();
            self.body_cursor = match &req.body {
                Some(b) => b.len(),
                None => 0,
            };
            self.status_message = str_then("Loaded: ", &req.name);
            self.current_request = req;
            self.current_collection_path = Some(path);
            self.current_request_index = Some(req_idx);
            self.header_rows = rows;
            self.body_scroll = 0;
            self.body_scroll_x = 0;
            self.header_selected = 0;
        }
    }

    /// Write the header rows back into the current request.
    pub fn sync_headers_to_request(&mut self)
        ensures
            final(self)@ == old(self)@.sync_headers(),
    {
        let mut map: Vec<(Vec<char>, Vec<char>)> = Vec::new();
        let mut i: usize = 0;
        let ghost rows = header_rows_view(self.header_rows@);
        proof {
            reveal(rows_to_headers);
            lemma_pairs_view(map@);
            assert(pairs_view(map@) =~= rows_to_headers(rows, 0));
        }
        while i < self.header_rows.len()
            invariant
                i <= self.header_rows.len(),
                rows == header_rows_view(self.header_rows@),
                pairs_view(map@) == rows_to_headers(rows, i as nat),
            decreases self.header_rows.len() - i,
        {
            proof {
                reveal(rows_to_headers);
                lemma_header_rows_view(self.header_rows@);
            }
            if self.header_rows[i].key.len() > 0 {
                pairs_insert(
                    &mut map,
                    copy_text(&self.header_rows[i].key),
                    copy_text(&self.header_rows[i].value),
                );
            }
            i = i + 1;
        }
        proof {
            lemma_header_rows_view(self.header_rows@);
        }
        self.current_request.headers = map;
    }

    /// Cycle the request method forward.
    pub fn next_method(&mut self)
        ensures
            final(self)@ == (AppView {
                current_request: RequestView {
                    method: old(self).current_request.method.spec_next(),
                    ..old(self)@.current_request
                },
                ..old(self)@
            }),
    {
        let methods = HttpMethod::all();
        let current = self.current_request.method.index();
        self.current_request.method = methods[(current + 1) % methods.len()];
    }

    /// Cycle the request method backward.
    pub fn prev_method(&mut self)
        ensures
            final(self)@ == (AppView {
                current_request: RequestView {
                    method: old(self).current_request.method.spec_prev(),
                    ..old(self)@.current_request
                },
                ..old(self)@
            }),
    {
        let methods = HttpMethod::all();
        let current = self.current_request.method.index();
        self.current_request.method = methods[(current + methods.len() - 1) % methods.len()];
    }

    /// The response selection with its ends in reading order, if any.
    pub fn normalized_response_selection(&self) -> (r: Option<((usize, usize), (usize, usize))>)
        ensures
            r == self@.normalized_selection(),
    {
        match (self.response_sel_start, self.response_sel_end) {
            (Some(s), Some(e)) => {
                if s.0 < e.0 || (s.0 == e.0 && s.1 <= e.1) {
                    Some((s, e))
                } else {
                    Some((e, s))
                }
            },
            _ => None,
        }
    }

    /// A copy of the current request with all `{{VAR}}` substituted.
    pub fn resolved_request(&self) -> (r: Request)
        ensures
            r@ == self@.resolved(),
    {
        let env = &self.env;
        let req = &self.current_request;
        let mut headers: Vec<(Vec<char>, Vec<char>)> = Vec::new();
        let mut i: usize = 0;
        let ghost hv = pairs_view(req.headers@);
        let ghost vars = env.vars();
        proof {
            lemma_pairs_view(headers@);
            lemma_pairs_view(req.headers@);
        }
        while i < req.headers.len()
            invariant
                i <= req.headers.len(),
                hv == pairs_view(req.headers@),
                vars == env.vars(),
                pairs_view(headers@) == resolved_headers(hv, vars, i as nat),
            decreases req.headers.len() - i,
        {
            let k = env.substitute(&req.headers[i].0);
            let v = env.substitute(&req.headers[i].1);
            proof {
                lemma_pairs_view(req.headers@);
                assert(hv[i as int] == (req.headers@[i as int].0@, req.headers@[i as int].1@));
                assert(subst_pair(hv[i as int], vars) == (k@, v@));
            }
            pairs_insert(&mut headers, k, v);
            i = i + 1;
        }
        let body = match &req.body {
            Some(b) => Some(env.substitute(b)),
            None => None,
        };
        Request {
            name: copy_text(&req.name),
            method: req.method,
            url: env.substitute(&req.url),
            headers,
            body,
        }
    }
}

} // verus!
