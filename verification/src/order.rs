//! Ordering of names, and a sorted order of keys.
use vstd::prelude::*;
use crate::text::{lex_le, lex_le_exec};

verus! {

/// Directories before files; within each group, names in code point order
/// (the order the collection tree and the variable list use).
pub open spec fn entry_le(a: (bool, Seq<char>), b: (bool, Seq<char>)) -> bool {
    if a.0 != b.0 {
        a.0
    } else {
        lex_le(a.1, b.1)
    }
}

/// `perm` lists each of the positions `0..n` exactly once.
pub open spec fn is_permutation(perm: Seq<usize>, n: nat) -> bool {
    &&& perm.len() == n
    &&& forall|i: int| 0 <= i < perm.len() ==> #[trigger] perm[i] < n
    &&& forall|i: int, j: int| 0 <= i < j < perm.len() ==> perm[i] != perm[j]
}

/// The keys, read in the order `perm`, are sorted by `entry_le`.
pub open spec fn sorted_keys(keys: Seq<(bool, Seq<char>)>, perm: Seq<usize>) -> bool {
    forall|i: int, j: int|
        0 <= i < j < perm.len() ==> entry_le(#[trigger] keys[perm[i] as int], #[trigger] keys[perm[j] as int])
}

pub proof fn lemma_lex_le_reflexive(a: Seq<char>)
    ensures
        lex_le(a, a),
    decreases a.len(),
{
    if a.len() > 0 {
        lemma_lex_le_reflexive(a.drop_first());
    }
}

pub proof fn lemma_lex_le_total(a: Seq<char>, b: Seq<char>)
    ensures
        lex_le(a, b) || lex_le(b, a),
    decreases a.len(),
{
    if a.len() > 0 && b.len() > 0 {
        if a[0] == b[0] {
            lemma_lex_le_total(a.drop_first(), b.drop_first());
        } else {
            vstd::utf8::char_u32_cast(a[0], a[0] as u32);
            vstd::utf8::char_u32_cast(b[0], b[0] as u32);
        }
    }
}

pub proof fn lemma_lex_le_antisymmetric(a: Seq<char>, b: Seq<char>)
    requires
        lex_le(a, b),
        lex_le(b, a),
    ensures
        a == b,
    decreases a.len(),
{
    if a.len() == 0 {
        assert(b.len() == 0);
        assert(a =~= b);
    } else {
        assert(b.len() > 0);
        if a[0] == b[0] {
            lemma_lex_le_antisymmetric(a.drop_first(), b.drop_first());
            assert(a =~= seq![a[0]] + a.drop_first());
            assert(b =~= seq![b[0]] + b.drop_first());
        }
    }
}

pub proof fn lemma_lex_le_transitive(a: Seq<char>, b: Seq<char>, c: Seq<char>)
    requires
        lex_le(a, b),
        lex_le(b, c),
    ensures
        lex_le(a, c),
    decreases a.len(),
{
    if a.len() > 0 && b.len() > 0 && c.len() > 0 && a[0] == b[0] && b[0] == c[0] {
        lemma_lex_le_transitive(a.drop_first(), b.drop_first(), c.drop_first());
    }
}

pub proof fn lemma_entry_le_total(a: (bool, Seq<char>), b: (bool, Seq<char>))
    ensures
        entry_le(a, b) || entry_le(b, a),
{
    lemma_lex_le_total(a.1, b.1);
}

pub proof fn lemma_entry_le_transitive(
    a: (bool, Seq<char>),
    b: (bool, Seq<char>),
    c: (bool, Seq<char>),
)
    requires
        entry_le(a, b),
        entry_le(b, c),
    ensures
        entry_le(a, c),
{
    if a.0 == b.0 && b.0 == c.0 {
        lemma_lex_le_transitive(a.1, b.1, c.1);
    }
}

/// Where the insertion sort puts position `k`: after every leading entry of
/// `out` whose key comes before or ties with that of `k`.
pub open spec fn insert_at(keys: Seq<(bool, Seq<char>)>, out: Seq<usize>, k: int) -> int
    decreases out.len(),
{
    if out.len() == 0 {
        0
    } else if entry_le(keys[out[0] as int], keys[k]) {
        1 + insert_at(keys, out.drop_first(), k)
    } else {
        0
    }
}

/// The order a stable insertion sort gives the first `n` positions of `keys`.
pub open spec fn insertion_order(keys: Seq<(bool, Seq<char>)>, n: nat) -> Seq<usize>
    decreases n,
{
    if n == 0 {
        Seq::empty()
    } else {
        let o = insertion_order(keys, (n - 1) as nat);
        o.insert(insert_at(keys, o, n - 1), (n - 1) as usize)
    }
}

proof fn lemma_insert_at(keys: Seq<(bool, Seq<char>)>, out: Seq<usize>, k: int, pos: int)
    requires
        0 <= pos <= out.len(),
        forall|i: int| 0 <= i < pos ==> entry_le(keys[#[trigger] out[i] as int], keys[k]),
        pos < out.len() ==> !entry_le(keys[out[pos] as int], keys[k]),
    ensures
        insert_at(keys, out, k) == pos,
    decreases pos,
{
    if pos > 0 {
        assert(entry_le(keys[out[0] as int], keys[k]));
        assert forall|i: int| 0 <= i < pos - 1 implies entry_le(
            keys[#[trigger] out.drop_first()[i] as int],
            keys[k],
        ) by {
            assert(out.drop_first()[i] == out[i + 1]);
        }
        lemma_insert_at(keys, out.drop_first(), k, pos - 1);
    }
}

/// Whether `a` comes before `b` or ties with it.
pub fn entry_le_exec(a_dir: bool, a_name: &Vec<char>, b_dir: bool, b_name: &Vec<char>) -> (r: bool)
    ensures
        r == entry_le((a_dir, a_name@), (b_dir, b_name@)),
{
    if a_dir != b_dir {
        a_dir
    } else {
        lex_le_exec(a_name, b_name)
    }
}

/// An order of the positions of `keys` in which the keys are sorted.
pub fn sorted_order(keys: &Vec<(bool, Vec<char>)>) -> (perm: Vec<usize>)
    ensures
        is_permutation(perm@, keys@.len()),
        sorted_keys(keys@.map_values(|k: (bool, Vec<char>)| (k.0, k.1@)), perm@),
        perm@ == insertion_order(keys@.map_values(|k: (bool, Vec<char>)| (k.0, k.1@)), keys@.len()),
{
    let ghost kv = keys@.map_values(|k: (bool, Vec<char>)| (k.0, k.1@));
    let mut out: Vec<usize> = Vec::new();
    let mut k: usize = 0;
    while k < keys.len()
        invariant
            k <= keys.len(),
            kv == keys@.map_values(|k: (bool, Vec<char>)| (k.0, k.1@)),
            out@.len() == k,
            forall|i: int| 0 <= i < out@.len() ==> #[trigger] out@[i] < k,
            forall|i: int, j: int| 0 <= i < j < out@.len() ==> out@[i] != out@[j],
            sorted_keys(kv, out@),
            out@ == insertion_order(kv, k as nat),
        decreases keys.len() - k,
    {
        let mut pos: usize = 0;
        while pos < out.len() && entry_le_exec(
            keys[out[pos]].0,
            &keys[out[pos]].1,
            keys[k].0,
            &keys[k].1,
        )
            invariant
                pos <= out@.len(),
                k < keys.len(),
                kv == keys@.map_values(|k: (bool, Vec<char>)| (k.0, k.1@)),
                forall|i: int| 0 <= i < out@.len() ==> #[trigger] out@[i] < k,
                forall|i: int| 0 <= i < pos ==> entry_le(kv[#[trigger] out@[i] as int], kv[k as int]),
            decreases out@.len() - pos,
        {
            pos = pos + 1;
        }
        proof {
            if pos < out@.len() {
                assert(!entry_le(kv[out@[pos as int] as int], kv[k as int]));
                lemma_entry_le_total(kv[out@[pos as int] as int], kv[k as int]);
            }
        }
        let ghost old_out = out@;
        proof {
            lemma_insert_at(kv, old_out, k as int, pos as int);
        }
        out.insert(pos, k);
        proof {
            assert forall|i: int, j: int| 0 <= i < j < out@.len() implies entry_le(
                #[trigger] kv[out@[i] as int],
                #[trigger] kv[out@[j] as int],
            ) by {
                if j < pos {
                    assert(out@[i] == old_out[i] && out@[j] == old_out[j]);
                } else if j == pos {
                    assert(out@[i] == old_out[i]);
                } else if i == pos {
                    assert(out@[j] == old_out[j - 1]);
                    if pos < old_out.len() {
                        lemma_entry_le_total(kv[old_out[pos as int] as int], kv[k as int]);
                        if j - 1 > pos {
                            assert(entry_le(kv[old_out[pos as int] as int], kv[old_out[j - 1] as int]));
                            lemma_entry_le_transitive(
                                kv[k as int],
                                kv[old_out[pos as int] as int],
                                kv[old_out[j - 1] as int],
                            );
                        }
                    }
                } else if i < pos {
                    assert(out@[i] == old_out[i] && out@[j] == old_out[j - 1]);
                } else {
                    assert(out@[i] == old_out[i - 1] && out@[j] == old_out[j - 1]);
                }
            }
            assert forall|i: int, j: int| 0 <= i < j < out@.len() implies out@[i] != out@[j] by {
                if i == pos {
                    assert(out@[j] == old_out[j - 1]);
                } else if j == pos {
                    assert(out@[i] == old_out[i]);
                } else {
                    let oi = if i < pos { i } else { i - 1 };
                    let oj = if j < pos { j } else { j - 1 };
                    assert(out@[i] == old_out[oi] && out@[j] == old_out[oj]);
                }
            }
            assert forall|i: int| 0 <= i < out@.len() implies #[trigger] out@[i] < k + 1 by {
                if i < pos {
                    assert(out@[i] == old_out[i]);
                } else if i > pos {
                    assert(out@[i] == old_out[i - 1]);
                }
            }
        }
        k = k + 1;
    }
    out
}

} // verus!
