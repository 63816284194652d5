//! Requests, collections, environment variables and responses.
use vstd::prelude::*;
use crate::order::{entry_le, insertion_order, is_permutation, sorted_order, sorted_keys};
use crate::text::{
    append, chars_of, copy_text, occurs_in, occurs_at, replace_all, replace_all_exec, has_prefix,
};

verus! {

/// A list of name/value pairs, read as sequences.
#[verifier::opaque]
pub open spec fn pairs_view(v: Seq<(Vec<char>, Vec<char>)>) -> Seq<(Seq<char>, Seq<char>)> {
    v.map_values(|p: (Vec<char>, Vec<char>)| (p.0@, p.1@))
}

/// The view of a list of pairs has one entry per pair: the views of its name
/// and value.
pub broadcast proof fn lemma_pairs_view(v: Seq<(Vec<char>, Vec<char>)>)
    ensures
        #[trigger] pairs_view(v).len() == v.len(),
        forall|i: int| 0 <= i < v.len() ==> #[trigger] pairs_view(v)[i] == (v[i].0@, v[i].1@),
{
    reveal(pairs_view);
}

/// The view of a list of requests has one entry per request: its view.
pub broadcast proof fn lemma_requests_view(v: Seq<Request>)
    ensures
        #[trigger] requests_view(v).len() == v.len(),
        forall|i: int| 0 <= i < v.len() ==> #[trigger] requests_view(v)[i] == v[i]@,
{
    reveal(requests_view);
}

/// No name occurs twice.
pub open spec fn distinct_keys(v: Seq<(Seq<char>, Seq<char>)>) -> bool {
    forall|i: int, j: int| 0 <= i < j < v.len() ==> v[i].0 != v[j].0
}

/// `out` holds the items of `inp`, each once, in some order.
pub open spec fn is_rearrangement<T>(out: Seq<T>, inp: Seq<T>) -> bool {
    exists|perm: Seq<usize>|
        is_permutation(perm, inp.len()) && forall|i: int|
            0 <= i < out.len() ==> #[trigger] out[i] == inp[perm[i] as int]
}

/// Copy a list of name/value pairs.
pub fn copy_pairs(v: &Vec<(Vec<char>, Vec<char>)>) -> (r: Vec<(Vec<char>, Vec<char>)>)
    ensures
        pairs_view(r@) == pairs_view(v@),
{
    broadcast use lemma_pairs_view;
    let mut r: Vec<(Vec<char>, Vec<char>)> = Vec::new();
    let mut i: usize = 0;
    while i < v.len()
        invariant
            i <= v.len(),
            pairs_view(r@) == pairs_view(v@).take(i as int),
        decreases v.len() - i,
    {
        let ghost before = r@;
        r.push((copy_text(&v[i].0), copy_text(&v[i].1)));
        proof {
            lemma_pairs_view(r@);
            lemma_pairs_view(before);
            lemma_pairs_view(v@);
            assert(pairs_view(r@) =~= pairs_view(before).push((v@[i as int].0@, v@[i as int].1@)));
            assert(pairs_view(v@).take(i + 1) =~= pairs_view(v@).take(i as int).push(
                pairs_view(v@)[i as int],
            ));
        }
        i = i + 1;
    }
    assert(pairs_view(v@).take(i as int) =~= pairs_view(v@));
    r
}

/// The HTTP methods a request can use.
#[derive(PartialEq, Eq, Structural, Clone, Copy, Debug)]
pub enum HttpMethod {
    Get,
    Post,
    Put,
    Patch,
    Delete,
    Head,
    Options,
}

/// The order in which the editor cycles through the methods.
pub open spec fn method_at(i: int) -> HttpMethod {
    if i == 0 {
        HttpMethod::Get
    } else if i == 1 {
        HttpMethod::Post
    } else if i == 2 {
        HttpMethod::Put
    } else if i == 3 {
        HttpMethod::Patch
    } else if i == 4 {
        HttpMethod::Delete
    } else if i == 5 {
        HttpMethod::Head
    } else {
        HttpMethod::Options
    }
}

/// The number of methods.
pub open spec fn method_count() -> int {
    7
}

impl HttpMethod {
    /// The position of this method in the cycle.
    pub open spec fn position(self) -> int {
        match self {
            HttpMethod::Get => 0,
            HttpMethod::Post => 1,
            HttpMethod::Put => 2,
            HttpMethod::Patch => 3,
            HttpMethod::Delete => 4,
            HttpMethod::Head => 5,
            HttpMethod::Options => 6,
        }
    }

    /// The method's name on the wire.
    pub open spec fn spec_name(self) -> Seq<char> {
        match self {
            HttpMethod::Get => seq!['G', 'E', 'T'],
            HttpMethod::Post => seq!['P', 'O', 'S', 'T'],
            HttpMethod::Put => seq!['P', 'U', 'T'],
            HttpMethod::Patch => seq!['P', 'A', 'T', 'C', 'H'],
            HttpMethod::Delete => seq!['D', 'E', 'L', 'E', 'T', 'E'],
            HttpMethod::Head => seq!['H', 'E', 'A', 'D'],
            HttpMethod::Options => seq!['O', 'P', 'T', 'I', 'O', 'N', 'S'],
        }
    }

    /// All methods, in cycle order.
    pub fn all() -> (r: Vec<HttpMethod>)
        ensures
            r@.len() == method_count(),
            forall|i: int| 0 <= i < r@.len() ==> #[trigger] r@[i] == method_at(i),
    {
        let mut r = Vec::new();
        r.push(HttpMethod::Get);
        r.push(HttpMethod::Post);
        r.push(HttpMethod::Put);
        r.push(HttpMethod::Patch);
        r.push(HttpMethod::Delete);
        r.push(HttpMethod::Head);
        r.push(HttpMethod::Options);
        r
    }

    /// The position of this method in the cycle.
    pub fn index(&self) -> (r: usize)
        ensures
            r == self.position(),
            method_at(r as int) == *self,
    {
        match self {
            HttpMethod::Get => 0,
            HttpMethod::Post => 1,
            HttpMethod::Put => 2,
            HttpMethod::Patch => 3,
            HttpMethod::Delete => 4,
            HttpMethod::Head => 5,
            HttpMethod::Options => 6,
        }
    }

    /// The method at a position of the cycle.
    pub fn from_index(i: usize) -> (r: HttpMethod)
        requires
            i < 7,
        ensures
            r == method_at(i as int),
    {
        if i == 0 {
            HttpMethod::Get
        } else if i == 1 {
            HttpMethod::Post
        } else if i == 2 {
            HttpMethod::Put
        } else if i == 3 {
            HttpMethod::Patch
        } else if i == 4 {
            HttpMethod::Delete
        } else if i == 5 {
            HttpMethod::Head
        } else {
            HttpMethod::Options
        }
    }

    /// The method that follows in the cycle (wrapping around).
    pub open spec fn spec_next(self) -> HttpMethod {
        method_at((self.position() + 1) % method_count())
    }

    /// The method that precedes in the cycle (wrapping around).
    pub open spec fn spec_prev(self) -> HttpMethod {
        method_at((self.position() + method_count() - 1) % method_count())
    }

    /// The method's name on the wire (`GET`, `POST`, ...).
    pub fn name(&self) -> (r: Vec<char>)
        ensures
            r@ == self.spec_name(),
    {
        let mut r = Vec::new();
        match self {
            HttpMethod::Get => {
                r.push('G');
                r.push('E');
                r.push('T');
            },
            HttpMethod::Post => {
                r.push('P');
                r.push('O');
                r.push('S');
                r.push('T');
            },
            HttpMethod::Put => {
                r.push('P');
                r.push('U');
                r.push('T');
            },
            HttpMethod::Patch => {
                r.push('P');
                r.push('A');
                r.push('T');
                r.push('C');
                r.push('H');
            },
            HttpMethod::Delete => {
                r.push('D');
                r.push('E');
                r.push('L');
                r.push('E');
                r.push('T');
                r.push('E');
            },
            HttpMethod::Head => {
                r.push('H');
                r.push('E');
                r.push('A');
                r.push('D');
            },
            HttpMethod::Options => {
                r.push('O');
                r.push('P');
                r.push('T');
                r.push('I');
                r.push('O');
                r.push('N');
                r.push('S');
            },
        }
        assert(r@ =~= self.spec_name());
        r
    }
}

/// Cycling forward then back returns to the method one started from, and so
/// does cycling back then forward.
pub proof fn law_method_cycle_inverse(m: HttpMethod)
    ensures
        m.spec_next().spec_prev() == m,
        m.spec_prev().spec_next() == m,
{
}

/// Cycling forward through all the methods returns to the first one.
pub proof fn law_method_cycle_period(m: HttpMethod)
    ensures
        m.spec_next().spec_next().spec_next().spec_next().spec_next().spec_next().spec_next() == m,
        m.spec_next() != m,
{
}

/// One HTTP request of a collection.
#[derive(Debug)]
pub struct Request {
    pub name: Vec<char>,
    pub method: HttpMethod,
    pub url: Vec<char>,
    pub headers: Vec<(Vec<char>, Vec<char>)>,
    pub body: Option<Vec<char>>,
}

pub struct RequestView {
    pub name: Seq<char>,
    pub method: HttpMethod,
    pub url: Seq<char>,
    pub headers: Seq<(Seq<char>, Seq<char>)>,
    pub body: Option<Seq<char>>,
}

pub open spec fn opt_text_view(o: Option<Vec<char>>) -> Option<Seq<char>> {
    match o {
        Some(t) => Some(t@),
        None => None,
    }
}

impl View for Request {
    type V = RequestView;

    open spec fn view(&self) -> RequestView {
        RequestView {
            name: self.name@,
            method: self.method,
            url: self.url@,
            headers: pairs_view(self.headers@),
            body: opt_text_view(self.body),
        }
    }
}

/// A new request with the given name: `GET`, no URL, no headers, no body.
pub open spec fn blank_request(name: Seq<char>) -> RequestView {
    RequestView {
        name,
        method: HttpMethod::Get,
        url: Seq::empty(),
        headers: Seq::empty(),
        body: None,
    }
}

pub fn copy_opt_text(o: &Option<Vec<char>>) -> (r: Option<Vec<char>>)
    ensures
        opt_text_view(r) == opt_text_view(*o),
{
    match o {
        Some(t) => Some(copy_text(t)),
        None => None,
    }
}

impl Request {
    /// A new request with the given name: `GET`, no URL, no headers, no body.
    pub fn new(name: &str) -> (r: Request)
        ensures
            r@ == blank_request(name@),
    {
        broadcast use lemma_pairs_view;
        let r = Request {
            name: chars_of(name),
            method: HttpMethod::Get,
            url: Vec::new(),
            headers: Vec::new(),
            body: None,
        };
        assert(pairs_view(r.headers@) =~= Seq::empty());
        r
    }

    /// A copy of the request.
    pub fn copy(&self) -> (r: Request)
        ensures
            r@ == self@,
    {
        Request {
            name: copy_text(&self.name),
            method: self.method,
            url: copy_text(&self.url),
            headers: copy_pairs(&self.headers),
            body: copy_opt_text(&self.body),
        }
    }
}

/// A named list of requests (one YAML file).
#[derive(Debug)]
pub struct Collection {
    pub name: Vec<char>,
    pub requests: Vec<Request>,
}

pub struct CollectionView {
    pub name: Seq<char>,
    pub requests: Seq<RequestView>,
}

#[verifier::opaque]
pub open spec fn requests_view(v: Seq<Request>) -> Seq<RequestView> {
    v.map_values(|r: Request| r@)
}

impl View for Collection {
    type V = CollectionView;

    open spec fn view(&self) -> CollectionView {
        CollectionView { name: self.name@, requests: requests_view(self.requests@) }
    }
}

/// The placeholder `{{name}}` that stands for a variable in a text.
pub open spec fn placeholder(name: Seq<char>) -> Seq<char> {
    seq!['{', '{'] + name + seq!['}', '}']
}

/// The text after replacing the placeholders of the first `n` variables,
/// one variable after the other.
pub open spec fn substitute_first(text: Seq<char>, vars: Seq<(Seq<char>, Seq<char>)>, n: nat) -> Seq<
    char,
>
    decreases n,
{
    if n == 0 {
        text
    } else {
        let prev = substitute_first(text, vars, (n - 1) as nat);
        replace_all(prev, placeholder(vars[n - 1].0), vars[n - 1].1)
    }
}

/// The text with every `{{KEY}}` replaced by the value of `KEY`, variable by
/// variable in the order given.
pub open spec fn substitute_all(text: Seq<char>, vars: Seq<(Seq<char>, Seq<char>)>) -> Seq<char> {
    substitute_first(text, vars, vars.len())
}

/// Environment variables, as name/value pairs.
#[derive(Debug)]
pub struct Environment {
    pub variables: Vec<(Vec<char>, Vec<char>)>,
}

impl Environment {
    pub open spec fn vars(&self) -> Seq<(Seq<char>, Seq<char>)> {
        pairs_view(self.variables@)
    }

    /// No variable is defined twice.
    pub open spec fn wf(&self) -> bool {
        distinct_keys(self.vars())
    }

    /// Replace all `{{KEY}}` occurrences in `text` with the value of `KEY`;
    /// unknown variables are left as they are.
    pub fn substitute(&self, text: &Vec<char>) -> (r: Vec<char>)
        ensures
            r@ == substitute_all(text@, self.vars()),
    {
        broadcast use lemma_pairs_view;
        let mut result = copy_text(text);
        let mut i: usize = 0;
        while i < self.variables.len()
            invariant
                i <= self.variables.len(),
                result@ == substitute_first(text@, self.vars(), i as nat),
            decreases self.variables.len() - i,
        {
            let mut ph: Vec<char> = Vec::new();
            ph.push('{');
            ph.push('{');
            append(&mut ph, &self.variables[i].0);
            ph.push('}');
            ph.push('}');
            proof {
                lemma_pairs_view(self.variables@);
            }
            assert(ph@ =~= placeholder(self.vars()[i as int].0));
            result = replace_all_exec(&result, &ph, &self.variables[i].1);
            i = i + 1;
        }
        result
    }

    /// The variables ordered by name.
    pub fn sorted_vars(&self) -> (r: Vec<(Vec<char>, Vec<char>)>)
        ensures
            pairs_view(r@) == sorted_pairs(self.vars()),
            is_rearrangement(pairs_view(r@), self.vars()),
            forall|i: int, j: int|
                0 <= i < j < r@.len() ==> entry_le(
                    (false, #[trigger] pairs_view(r@)[i].0),
                    (false, #[trigger] pairs_view(r@)[j].0),
                ),
    {
        sort_pairs(&self.variables)
    }
}

/// The sort keys of a list of pairs: their names.
pub open spec fn pair_keys(v: Seq<(Seq<char>, Seq<char>)>) -> Seq<(bool, Seq<char>)> {
    v.map_values(|p: (Seq<char>, Seq<char>)| (false, p.0))
}

/// The pairs in the order of their names.
pub open spec fn sorted_pairs(v: Seq<(Seq<char>, Seq<char>)>) -> Seq<(Seq<char>, Seq<char>)> {
    Seq::new(v.len(), |i: int| v[insertion_order(pair_keys(v), v.len())[i] as int])
}

/// The pairs ordered by name.
pub fn sort_pairs(v: &Vec<(Vec<char>, Vec<char>)>) -> (r: Vec<(Vec<char>, Vec<char>)>)
    ensures
        pairs_view(r@) == sorted_pairs(pairs_view(v@)),
        is_rearrangement(pairs_view(r@), pairs_view(v@)),
        forall|i: int, j: int|
            0 <= i < j < r@.len() ==> entry_le(
                (false, #[trigger] pairs_view(r@)[i].0),
                (false, #[trigger] pairs_view(r@)[j].0),
            ),
{
    broadcast use lemma_pairs_view;
    let mut keys: Vec<(bool, Vec<char>)> = Vec::new();
    let mut i: usize = 0;
    while i < v.len()
        invariant
            i <= v.len(),
            keys@.len() == i,
            forall|k: int| 0 <= k < i ==> #[trigger] keys@[k].0 == false && keys@[k].1@ == v@[k].0@,
        decreases v.len() - i,
    {
        keys.push((false, copy_text(&v[i].0)));
        i = i + 1;
    }
    let perm = sorted_order(&keys);
    let ghost kv = keys@.map_values(|k: (bool, Vec<char>)| (k.0, k.1@));
    assert(kv =~= pair_keys(pairs_view(v@)));
    let mut r: Vec<(Vec<char>, Vec<char>)> = Vec::new();
    let mut j: usize = 0;
    while j < perm.len()
        invariant
            j <= perm.len(),
            is_permutation(perm@, v@.len()),
            keys@.len() == v@.len(),
            r@.len() == j,
            forall|k: int| 0 <= k < j ==> #[trigger] pairs_view(r@)[k] == pairs_view(v@)[perm@[k] as int],
        decreases perm.len() - j,
    {
        let p = perm[j];
        let ghost before = r@;
        r.push((copy_text(&v[p].0), copy_text(&v[p].1)));
        proof {
            lemma_pairs_view(r@);
            lemma_pairs_view(before);
            lemma_pairs_view(v@);
            assert forall|k: int| 0 <= k < j + 1 implies #[trigger] pairs_view(r@)[k] == pairs_view(
                v@,
            )[perm@[k] as int] by {
                if k < j {
                    assert(r@[k] == before[k]);
                    assert(pairs_view(before)[k] == pairs_view(v@)[perm@[k] as int]);
                }
            }
        }
        j = j + 1;
    }
    proof {
        assert forall|a: int, b: int| 0 <= a < b < r@.len() implies entry_le(
            (false, #[trigger] pairs_view(r@)[a].0),
            (false, #[trigger] pairs_view(r@)[b].0),
        ) by {
            assert(entry_le(kv[perm@[a] as int], kv[perm@[b] as int]));
        }
        assert(is_permutation(perm@, pairs_view(v@).len()));
        assert(pairs_view(r@) =~= sorted_pairs(pairs_view(v@)));
    }
    r
}

/// Replacing a pattern that does not occur leaves the text as it is.
pub proof fn lemma_replace_all_absent(s: Seq<char>, pat: Seq<char>, rep: Seq<char>)
    requires
        !occurs_in(s, pat),
    ensures
        replace_all(s, pat, rep) == s,
    decreases s.len(),
{
    if s.len() > 0 && pat.len() > 0 {
        if has_prefix(s, pat) {
            assert(s.subrange(0, pat.len() as int) =~= s.take(pat.len() as int));
            assert(occurs_at(s, 0, pat));
        }
        assert forall|j: int| !occurs_at(s.drop_first(), j, pat) by {
            if occurs_at(s.drop_first(), j, pat) {
                assert(s.drop_first().subrange(j, j + pat.len()) =~= s.subrange(
                    j + 1,
                    j + 1 + pat.len(),
                ));
                assert(occurs_at(s, j + 1, pat));
            }
        }
        lemma_replace_all_absent(s.drop_first(), pat, rep);
        assert(s =~= seq![s[0]] + s.drop_first());
    }
}

/// A text in which no placeholder of a defined variable occurs comes out of
/// substitution unchanged ("unknown variables are left as-is").
pub proof fn law_substitute_without_placeholders(
    text: Seq<char>,
    vars: Seq<(Seq<char>, Seq<char>)>,
)
    requires
        forall|i: int| 0 <= i < vars.len() ==> !occurs_in(text, #[trigger] placeholder(vars[i].0)),
    ensures
        substitute_all(text, vars) == text,
{
    lemma_substitute_first_unchanged(text, vars, vars.len());
}

proof fn lemma_substitute_first_unchanged(
    text: Seq<char>,
    vars: Seq<(Seq<char>, Seq<char>)>,
    n: nat,
)
    requires
        n <= vars.len(),
        forall|i: int| 0 <= i < vars.len() ==> !occurs_in(text, #[trigger] placeholder(vars[i].0)),
    ensures
        substitute_first(text, vars, n) == text,
    decreases n,
{
    if n > 0 {
        lemma_substitute_first_unchanged(text, vars, (n - 1) as nat);
        lemma_replace_all_absent(text, placeholder(vars[n - 1].0), vars[n - 1].1);
    }
}

/// An environment with no variables leaves every text unchanged.
pub proof fn law_substitute_empty(text: Seq<char>)
    ensures
        substitute_all(text, Seq::empty()) == text,
{
}

impl Environment {
    /// The empty environment.
    pub fn empty() -> (r: Environment)
        ensures
            r.vars().len() == 0,
            r.wf(),
    {
        broadcast use lemma_pairs_view;
        Environment { variables: Vec::new() }
    }
}

impl Default for Environment {
    fn default() -> (r: Environment)
        ensures
            r.vars().len() == 0,
    {
        broadcast use lemma_pairs_view;
        Environment { variables: Vec::new() }
    }
}

/// The colour the status line of a response is shown in.
#[derive(PartialEq, Eq, Structural, Clone, Copy, Debug)]
pub enum StatusColor {
    Green,
    Yellow,
    Red,
    LightRed,
    White,
}

/// The colour for an HTTP status code: 2xx green, 3xx yellow, 4xx red,
/// 5xx light red, anything else white.
pub open spec fn status_color_of(status: u16) -> StatusColor {
    if 200 <= status <= 299 {
        StatusColor::Green
    } else if 300 <= status <= 399 {
        StatusColor::Yellow
    } else if 400 <= status <= 499 {
        StatusColor::Red
    } else if 500 <= status <= 599 {
        StatusColor::LightRed
    } else {
        StatusColor::White
    }
}

/// The response to a request that was sent.
#[derive(Debug)]
pub struct AppResponse {
    pub status: u16,
    pub status_text: Vec<char>,
    pub headers: Vec<(Vec<char>, Vec<char>)>,
    pub body: Vec<char>,
    pub elapsed_ms: u128,
}

pub struct AppResponseView {
    pub status: u16,
    pub status_text: Seq<char>,
    pub headers: Seq<(Seq<char>, Seq<char>)>,
    pub body: Seq<char>,
    pub elapsed_ms: u128,
}

impl View for AppResponse {
    type V = AppResponseView;

    open spec fn view(&self) -> AppResponseView {
        AppResponseView {
            status: self.status,
            status_text: self.status_text@,
            headers: pairs_view(self.headers@),
            body: self.body@,
            elapsed_ms: self.elapsed_ms,
        }
    }
}

/// What `serde_json` renders, with `to_string_pretty`, from the document it
/// parses out of a text; `None` when the text is not JSON.
pub uninterp spec fn json_pretty(text: Seq<char>) -> Option<Seq<char>>;

/// The body as shown, given what pretty-printing it gave: the
/// pretty-printed text when there is one, otherwise the body itself.
pub open spec fn shown_body_of(body: Seq<char>, pretty: Option<Seq<char>>) -> Seq<char> {
    match pretty {
        Some(p) => p,
        None => body,
    }
}

/// The body as shown: pretty-printed JSON when it parses as JSON, otherwise
/// the body itself.
pub open spec fn pretty_body_of(body: Seq<char>) -> Seq<char> {
    shown_body_of(body, json_pretty(body))
}

/// The body as shown, given what pretty-printing it gave (`None` when the
/// body is not JSON).
pub fn shown_body(body: &Vec<char>, pretty: Option<Vec<char>>) -> (r: Vec<char>)
    ensures
        r@ == shown_body_of(
            body@,
            match pretty {
                Some(p) => Some(p@),
                None => None,
            },
        ),
{
    match pretty {
        Some(p) => p,
        None => copy_text(body),
    }
}

/// Parses `text` with `serde_json::from_str` into a `serde_json::Value` and
/// prints that value with `serde_json::to_string_pretty`.  The contract only
/// names the result: it is `json_pretty` of the text, `None` when either
/// call fails.
#[verifier::external_body]
fn reformat_json(text: &Vec<char>) -> (r: Option<Vec<char>>)
    ensures
        match r {
            Some(p) => json_pretty(text@) == Some(p@),
            None => json_pretty(text@) is None,
        },
{
    let s: String = text.iter().collect();
    serde_json::from_str::<serde_json::Value>(&s).ok().and_then(
        |v| serde_json::to_string_pretty(&v).ok(),
    ).map(|p| p.chars().collect())
}

impl AppResponse {
    /// The colour of the status line.
    pub fn status_color(&self) -> (r: StatusColor)
        ensures
            r == status_color_of(self.status),
    {
        if 200 <= self.status && self.status <= 299 {
            StatusColor::Green
        } else if 300 <= self.status && self.status <= 399 {
            StatusColor::Yellow
        } else if 400 <= self.status && self.status <= 499 {
            StatusColor::Red
        } else if 500 <= self.status && self.status <= 599 {
            StatusColor::LightRed
        } else {
            StatusColor::White
        }
    }

    /// The body pretty-printed when it is JSON, otherwise as received.
    pub fn pretty_body(&self) -> (r: Vec<char>)
        ensures
            r@ == pretty_body_of(self.body@),
    {
        shown_body(&self.body, reformat_json(&self.body))
    }
}

} // verus!
