//! Paths as the sequence of their components, the way `std::path::Path`
//! compares and takes them apart (`/` separated, no prefix).
use vstd::prelude::*;
use crate::text::{append, chars_of, copy_text, text_eq};

verus! {

/// A path: whether it starts at the root, and its components after that.
#[derive(Debug)]
pub struct PathModel {
    pub absolute: bool,
    pub parts: Vec<Vec<char>>,
}

pub struct PathView {
    pub absolute: bool,
    pub parts: Seq<Seq<char>>,
}

#[verifier::opaque]
pub open spec fn parts_view(parts: Seq<Vec<char>>) -> Seq<Seq<char>> {
    parts.map_values(|p: Vec<char>| p@)
}

pub proof fn lemma_parts_view(s: Seq<Vec<char>>)
    ensures
        parts_view(s).len() == s.len(),
        forall|i: int| 0 <= i < s.len() ==> #[trigger] parts_view(s)[i] == s[i]@,
{
    reveal(parts_view);
}

impl View for PathModel {
    type V = PathView;

    open spec fn view(&self) -> PathView {
        PathView { absolute: self.absolute, parts: parts_view(self.parts@) }
    }
}

impl PathView {
    /// `base` is a leading run of this path's components (`Path::starts_with`).
    pub open spec fn starts_with(self, base: PathView) -> bool {
        &&& (base.absolute ==> self.absolute)
        &&& (!base.absolute && base.parts.len() > 0 ==> !self.absolute)
        &&& base.parts.len() <= self.parts.len()
        &&& self.parts.take(base.parts.len() as int) == base.parts
    }

    /// The components after `base` (`Path::strip_prefix`).
    pub open spec fn strip_prefix(self, base: PathView) -> Option<PathView> {
        if !self.starts_with(base) {
            None
        } else if !base.absolute && base.parts.len() == 0 {
            Some(self)
        } else {
            Some(PathView { absolute: false, parts: self.parts.skip(base.parts.len() as int) })
        }
    }

    /// The path without its last component (`Path::parent`).
    pub open spec fn parent(self) -> Option<PathView> {
        if self.parts.len() == 0 {
            None
        } else {
            Some(PathView { absolute: self.absolute, parts: self.parts.drop_last() })
        }
    }

    /// The last component when it names an entry (`Path::file_name`).
    pub open spec fn file_name(self) -> Option<Seq<char>> {
        if self.parts.len() == 0 || self.parts.last() == seq!['.'] || self.parts.last() == seq![
            '.',
            '.',
        ] {
            None
        } else {
            Some(self.parts.last())
        }
    }

    /// The path with one more component.
    pub open spec fn child(self, name: Seq<char>) -> PathView {
        PathView { absolute: self.absolute, parts: self.parts.push(name) }
    }

    /// The path written out with `/` between its components.
    pub open spec fn text(self) -> Seq<char> {
        if self.absolute {
            seq!['/'] + join_parts(self.parts)
        } else {
            join_parts(self.parts)
        }
    }
}

/// Components joined with `/`.
pub open spec fn join_parts(parts: Seq<Seq<char>>) -> Seq<char>
    decreases parts.len(),
{
    if parts.len() == 0 {
        Seq::empty()
    } else if parts.len() == 1 {
        parts[0]
    } else {
        join_parts(parts.drop_last()) + seq!['/'] + parts.last()
    }
}

/// Position of the last `.` in a name, or -1.
pub open spec fn last_dot(name: Seq<char>) -> int
    decreases name.len(),
{
    if name.len() == 0 {
        -1
    } else if name.last() == '.' {
        name.len() - 1
    } else {
        last_dot(name.drop_last())
    }
}

/// The extension of a file name (`Path::extension`): what follows the last
/// `.`, unless that dot begins the name or there is none.
pub open spec fn extension(name: Seq<char>) -> Option<Seq<char>> {
    if name == seq!['.', '.'] || last_dot(name) <= 0 {
        None
    } else {
        Some(name.skip(last_dot(name) + 1))
    }
}

/// The stem of a file name (`Path::file_stem`): the name before the last
/// `.`, or the whole name when it has no extension.
pub open spec fn file_stem(name: Seq<char>) -> Seq<char> {
    if name == seq!['.', '.'] || last_dot(name) <= 0 {
        name
    } else {
        name.take(last_dot(name))
    }
}

pub proof fn lemma_last_dot(name: Seq<char>)
    ensures
        -1 <= last_dot(name) < name.len(),
        last_dot(name) >= 0 ==> name[last_dot(name)] == '.',
        forall|j: int| last_dot(name) < j < name.len() ==> name[j] != '.',
    decreases name.len(),
{
    if name.len() > 0 && name.last() != '.' {
        lemma_last_dot(name.drop_last());
        assert forall|j: int| last_dot(name) < j < name.len() implies name[j] != '.' by {
            if j < name.len() - 1 {
                assert(name[j] == name.drop_last()[j]);
            }
        }
    }
}

pub proof fn lemma_parts_view_push(parts: Seq<Vec<char>>, x: Vec<char>)
    ensures
        parts_view(parts.push(x)) == parts_view(parts).push(x@),
{
    reveal(parts_view);
    assert(parts_view(parts.push(x)) =~= parts_view(parts).push(x@));
}

impl PathModel {
    /// The root path `/`.
    pub fn root() -> (r: PathModel)
        ensures
            r@.absolute,
            r@.parts.len() == 0,
    {
        let r = PathModel { absolute: true, parts: Vec::new() };
        proof {
            lemma_parts_view(r.parts@);
        }
        r
    }

    /// A copy of the path.
    pub fn copy(&self) -> (r: PathModel)
        ensures
            r@ == self@,
    {
        proof {
            lemma_parts_view(self.parts@);
        }
        let mut parts: Vec<Vec<char>> = Vec::new();
        let mut i: usize = 0;
        proof {
            lemma_parts_view(parts@);
            assert(parts_view(parts@) =~= parts_view(self.parts@).take(0));
        }
        while i < self.parts.len()
            invariant
                i <= self.parts.len(),
                parts_view(parts@) == parts_view(self.parts@).take(i as int),
            decreases self.parts.len() - i,
        {
            proof {
                lemma_parts_view(self.parts@);
            }
            let ghost before = parts@;
            parts.push(copy_text(&self.parts[i]));
            proof {
                lemma_parts_view_push(before, parts@.last());
                assert(parts_view(self.parts@).take(i + 1) =~= parts_view(self.parts@).take(
                    i as int,
                ).push(self.parts@[i as int]@));
            }
            i = i + 1;
        }
        assert(parts_view(self.parts@).take(i as int) =~= parts_view(self.parts@));
        PathModel { absolute: self.absolute, parts }
    }

    /// Whether two paths have the same components.
    pub fn same_as(&self, other: &PathModel) -> (r: bool)
        ensures
            r == (self@ == other@),
    {
        proof {
            lemma_parts_view(self.parts@);
            lemma_parts_view(other.parts@);
        }
        if self.absolute != other.absolute || self.parts.len() != other.parts.len() {
            proof {
                if self@ == other@ {
                    assert(parts_view(self.parts@).len() == parts_view(other.parts@).len());
                }
            }
            return false;
        }
        let mut i: usize = 0;
        while i < self.parts.len()
            invariant
                self.parts.len() == other.parts.len(),
                i <= self.parts.len(),
                forall|j: int| 0 <= j < i ==> self.parts@[j]@ == other.parts@[j]@,
            decreases self.parts.len() - i,
        {
            proof {
                lemma_parts_view(self.parts@);
                lemma_parts_view(other.parts@);
            }
            if !text_eq(&self.parts[i], &other.parts[i]) {
                proof {
                    if self@ == other@ {
                        assert(parts_view(self.parts@)[i as int] == parts_view(other.parts@)[i as int]);
                    }
                }
                return false;
            }
            i = i + 1;
        }
        proof {
            lemma_parts_view(self.parts@);
            lemma_parts_view(other.parts@);
        }
        assert(parts_view(self.parts@) =~= parts_view(other.parts@));
        true
    }

    /// Whether `base` is a leading run of this path's components.
    pub fn starts_with(&self, base: &PathModel) -> (r: bool)
        ensures
            r == self@.starts_with(base@),
    {
        proof {
            lemma_parts_view(self.parts@);
            lemma_parts_view(base.parts@);
        }
        if base.absolute && !self.absolute {
            return false;
        }
        if !base.absolute && base.parts.len() > 0 && self.absolute {
            return false;
        }
        if base.parts.len() > self.parts.len() {
            return false;
        }
        let mut i: usize = 0;
        while i < base.parts.len()
            invariant
                base.parts.len() <= self.parts.len(),
                i <= base.parts.len(),
                forall|j: int| 0 <= j < i ==> self.parts@[j]@ == base.parts@[j]@,
            decreases base.parts.len() - i,
        {
            proof {
                lemma_parts_view(self.parts@);
                lemma_parts_view(base.parts@);
            }
            if !text_eq(&self.parts[i], &base.parts[i]) {
                proof {
                    assert(parts_view(self.parts@).take(base.parts.len() as int)[i as int]
                        != parts_view(base.parts@)[i as int]);
                }
                return false;
            }
            i = i + 1;
        }
        proof {
            lemma_parts_view(self.parts@);
            lemma_parts_view(base.parts@);
        }
        assert(parts_view(self.parts@).take(base.parts.len() as int) =~= parts_view(base.parts@));
        true
    }

    /// The components after `base`, when the path starts with it.
    pub fn strip_prefix(&self, base: &PathModel) -> (r: Option<PathModel>)
        ensures
            r.is_some() == self@.strip_prefix(base@).is_some(),
            r matches Some(p) ==> Some(p@) == self@.strip_prefix(base@),
    {
        proof {
            lemma_parts_view(self.parts@);
            lemma_parts_view(base.parts@);
        }
        if !self.starts_with(base) {
            return None;
        }
        if !base.absolute && base.parts.len() == 0 {
            return Some(self.copy());
        }
        let mut parts: Vec<Vec<char>> = Vec::new();
        let mut i: usize = base.parts.len();
        let n = base.parts.len();
        proof {
            lemma_parts_view(parts@);
            assert(parts_view(parts@) =~= parts_view(self.parts@).subrange(n as int, n as int));
        }
        while i < self.parts.len()
            invariant
                n <= i <= self.parts.len(),
                parts_view(parts@) == parts_view(self.parts@).subrange(n as int, i as int),
            decreases self.parts.len() - i,
        {
            proof {
                lemma_parts_view(self.parts@);
            }
            let ghost before = parts@;
            parts.push(copy_text(&self.parts[i]));
            proof {
                lemma_parts_view_push(before, parts@.last());
                assert(parts_view(self.parts@).subrange(n as int, i + 1) =~= parts_view(
                    self.parts@,
                ).subrange(n as int, i as int).push(self.parts@[i as int]@));
            }
            i = i + 1;
        }
        assert(parts_view(self.parts@).subrange(n as int, i as int) =~= parts_view(
            self.parts@,
        ).skip(n as int));
        Some(PathModel { absolute: false, parts })
    }

    /// The path without its last component.
    pub fn parent(&self) -> (r: Option<PathModel>)
        ensures
            r.is_some() == self@.parent().is_some(),
            r matches Some(p) ==> Some(p@) == self@.parent(),
    {
        proof {
            lemma_parts_view(self.parts@);
        }
        if self.parts.len() == 0 {
            return None;
        }
        let mut p = self.copy();
        let ghost pp = p.parts@;
        p.parts.pop();
        proof {
            lemma_parts_view(pp);
            lemma_parts_view(p.parts@);
            lemma_parts_view(self.parts@);
        }
        assert(parts_view(p.parts@) =~= parts_view(self.parts@).drop_last());
        Some(p)
    }

    /// The last component when it names an entry.
    pub fn file_name(&self) -> (r: Option<Vec<char>>)
        ensures
            r.is_some() == self@.file_name().is_some(),
            r matches Some(n) ==> Some(n@) == self@.file_name(),
    {
        proof {
            lemma_parts_view(self.parts@);
        }
        if self.parts.len() == 0 {
            return None;
        }
        let last = &self.parts[self.parts.len() - 1];
        assert(last@ == parts_view(self.parts@).last());
        let mut dot: Vec<char> = Vec::new();
        dot.push('.');
        if text_eq(last, &dot) || is_dot_dot(last) {
            None
        } else {
            Some(copy_text(last))
        }
    }

    /// The path with `name` added as its last component.
    pub fn child(&self, name: &str) -> (r: PathModel)
        ensures
            r@ == self@.child(name@),
    {
        proof {
            lemma_parts_view(self.parts@);
        }
        let mut p = self.copy();
        let ghost before = p.parts@;
        p.parts.push(chars_of(name));
        proof {
            lemma_parts_view_push(before, p.parts@.last());
        }
        p
    }

    /// The path written out with `/` between its components.
    pub fn text(&self) -> (r: Vec<char>)
        ensures
            r@ == self@.text(),
    {
        proof {
            lemma_parts_view(self.parts@);
        }
        let mut body: Vec<char> = Vec::new();
        let mut i: usize = 0;
        while i < self.parts.len()
            invariant
                i <= self.parts.len(),
                body@ == join_parts(parts_view(self.parts@).take(i as int)),
            decreases self.parts.len() - i,
        {
            let ghost pv = parts_view(self.parts@);
            proof {
                lemma_parts_view(self.parts@);
            }
            if i > 0 {
                body.push('/');
            }
            append(&mut body, &self.parts[i]);
            proof {
                let t = pv.take(i + 1);
                assert(t.drop_last() =~= pv.take(i as int));
                if i == 0 {
                    assert(pv.take(0) =~= Seq::<Seq<char>>::empty());
                    assert(body@ =~= t[0]);
                }
            }
            i = i + 1;
        }
        assert(parts_view(self.parts@).take(i as int) =~= parts_view(self.parts@));
        if self.absolute {
            let mut r: Vec<char> = Vec::new();
            r.push('/');
            append(&mut r, &body);
            assert(r@ =~= seq!['/'] + body@);
            r
        } else {
            body
        }
    }
}

/// The last `.` of a name, if any.
pub fn last_dot_exec(name: &Vec<char>) -> (r: Option<usize>)
    ensures
        r matches Some(i) ==> i as int == last_dot(name@),
        r is None ==> last_dot(name@) == -1,
{
    let mut i: usize = name.len();
    proof {
        assert(name@.take(i as int) =~= name@);
    }
    while i > 0
        invariant
            i <= name.len(),
            last_dot(name@) == last_dot(name@.take(i as int)),
        decreases i,
    {
        if name[i - 1] == '.' {
            return Some(i - 1);
        }
        assert(name@.take(i as int).drop_last() =~= name@.take(i - 1));
        i = i - 1;
    }
    None
}

/// Whether `name` is `..`.
fn is_dot_dot(name: &Vec<char>) -> (r: bool)
    ensures
        r == (name@ == seq!['.', '.']),
{
    let mut dd: Vec<char> = Vec::new();
    dd.push('.');
    dd.push('.');
    assert(dd@ =~= seq!['.', '.']);
    text_eq(name, &dd)
}

/// The extension of a file name.
pub fn extension_exec(name: &Vec<char>) -> (r: Option<Vec<char>>)
    ensures
        r.is_some() == extension(name@).is_some(),
        r matches Some(e) ==> Some(e@) == extension(name@),
{
    if is_dot_dot(name) {
        return None;
    }
    proof {
        lemma_last_dot(name@);
    }
    match last_dot_exec(name) {
        Some(i) => {
            if i > 0 {
                assert(i < name.len());
                Some(crate::text::slice_text(name, i + 1, name.len()))
            } else {
                None
            }
        },
        None => None,
    }
}

/// The stem of a file name.
pub fn file_stem_exec(name: &Vec<char>) -> (r: Vec<char>)
    ensures
        r@ == file_stem(name@),
{
    if is_dot_dot(name) {
        return copy_text(name);
    }
    proof {
        lemma_last_dot(name@);
    }
    match last_dot_exec(name) {
        Some(i) => {
            if i > 0 {
                crate::text::slice_text(name, 0, i)
            } else {
                copy_text(name)
            }
        },
        None => copy_text(name),
    }
}

} // verus!
