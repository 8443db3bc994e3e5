//! Stable sorting by a key: a flag that sorts first when set, then a text
//! compared lexicographically by code point.
use vstd::prelude::*;
use crate::textfmt::{
    chars_lt, seq_lt, lemma_seq_lt_asymmetric, lemma_seq_lt_irreflexive, lemma_seq_lt_total,
    lemma_seq_lt_transitive,
};

verus! {

/// An ordering key: a flag that sorts first when set, then a text compared
/// lexicographically.
pub open spec fn key_lt(a: (bool, Seq<char>), b: (bool, Seq<char>)) -> bool {
    (a.0 && !b.0) || (a.0 == b.0 && seq_lt(a.1, b.1))
}

/// `p` maps each of `n` positions to a distinct position below `n`.
pub open spec fn is_permutation_map(p: Seq<int>, n: nat) -> bool {
    &&& p.len() == n
    &&& forall|i: int| 0 <= i < n ==> 0 <= #[trigger] p[i] < n
    &&& forall|i: int, j: int| 0 <= i < j < n ==> #[trigger] p[i] != #[trigger] p[j]
}

/// `out` is `inp` sorted by the keys `kf` gives, items with equal keys
/// keeping their relative order (the result of a stable sort).
pub open spec fn stably_sorted_by<T>(out: Seq<T>, inp: Seq<T>, kf: spec_fn(T) -> (bool, Seq<char>)) -> bool {
    exists|p: Seq<int>| {
        &&& #[trigger] is_permutation_map(p, inp.len())
        &&& out.len() == inp.len()
        &&& forall|k: int| 0 <= k < out.len() ==> out[k] == inp[#[trigger] p[k]]
        &&& forall|i: int, j: int| 0 <= i < j < out.len() ==> {
            &&& !key_lt(kf(#[trigger] out[j]), kf(#[trigger] out[i]))
            &&& (!key_lt(kf(out[i]), kf(out[j])) ==> p[i] < p[j])
        }
    }
}

proof fn lemma_key_lt_irreflexive(a: (bool, Seq<char>))
    ensures
        !key_lt(a, a),
{
    lemma_seq_lt_irreflexive(a.1);
}

proof fn lemma_key_lt_transitive(a: (bool, Seq<char>), b: (bool, Seq<char>), c: (bool, Seq<char>))
    requires
        key_lt(a, b),
        key_lt(b, c),
    ensures
        key_lt(a, c),
{
    if a.0 == b.0 && b.0 == c.0 {
        lemma_seq_lt_transitive(a.1, b.1, c.1);
    }
}

/// Keys of which neither precedes the other are equal.
proof fn lemma_key_incomparable(a: (bool, Seq<char>), b: (bool, Seq<char>))
    requires
        !key_lt(a, b),
        !key_lt(b, a),
    ensures
        a == b,
{
    lemma_seq_lt_total(a.1, b.1);
}

/// `a < b <= c` gives `a < c`.
proof fn lemma_key_lt_le(a: (bool, Seq<char>), b: (bool, Seq<char>), c: (bool, Seq<char>))
    requires
        key_lt(a, b),
        !key_lt(c, b),
    ensures
        key_lt(a, c),
{
    if key_lt(b, c) {
        lemma_key_lt_transitive(a, b, c);
    } else {
        lemma_key_incomparable(b, c);
    }
}

/// Compares two exec keys.
fn key_before(a: &(bool, Vec<char>), b: &(bool, Vec<char>)) -> (res: bool)
    ensures
        res == key_lt((a.0, a.1@), (b.0, b.1@)),
{
    if a.0 && !b.0 {
        true
    } else if a.0 != b.0 {
        false
    } else {
        chars_lt(a.1.as_slice(), b.1.as_slice())
    }
}

/// Sorts items by their keys (`keys[i]` is the key of `v[i]`): set flags
/// first, then texts in lexicographic order; the sort is stable.
pub fn stable_sort_by_key<T>(v: Vec<T>, keys: Vec<(bool, Vec<char>)>, Ghost(kf): Ghost<spec_fn(T) -> (bool, Seq<char>)>) -> (out: Vec<T>)
    requires
        keys@.len() == v@.len(),
        forall|i: int| 0 <= i < v@.len() ==> (#[trigger] keys@[i]).0 == kf(v@[i]).0 && keys@[i].1@ == kf(v@[i]).1,
    ensures
        stably_sorted_by(out@, v@, kf),
{
    let ghost orig = v@;
    let ghost n = v@.len();
    let mut rest = v;
    let mut keys = keys;
    let ghost mut idx: Seq<int> = Seq::new(n, |i: int| i);
    let ghost mut p: Seq<int> = Seq::empty();
    let mut out: Vec<T> = Vec::new();
    while rest.len() > 0
        invariant
            rest@.len() == idx.len(),
            keys@.len() == rest@.len(),
            forall|i: int| 0 <= i < rest@.len() ==> (#[trigger] keys@[i]).0 == kf(rest@[i]).0 && keys@[i].1@ == kf(rest@[i]).1,
            forall|i: int| 0 <= i < rest@.len() ==> rest@[i] == orig[#[trigger] idx[i]],
            forall|i: int| 0 <= i < idx.len() ==> 0 <= #[trigger] idx[i] < n,
            forall|i: int, j: int| 0 <= i < j < idx.len() ==> #[trigger] idx[i] < #[trigger] idx[j],
            out@.len() == p.len(),
            p.len() + idx.len() == n,
            forall|k: int| 0 <= k < p.len() ==> 0 <= #[trigger] p[k] < n,
            forall|k: int| 0 <= k < out@.len() ==> out@[k] == orig[#[trigger] p[k]],
            forall|k1: int, k2: int| 0 <= k1 < k2 < p.len() ==> #[trigger] p[k1] != #[trigger] p[k2],
            forall|k: int, i: int| 0 <= k < p.len() && 0 <= i < idx.len() ==> #[trigger] p[k] != #[trigger] idx[i],
            forall|i: int, j: int| 0 <= i < j < out@.len() ==> {
                &&& !key_lt(kf(#[trigger] out@[j]), kf(#[trigger] out@[i]))
                &&& (!key_lt(kf(out@[i]), kf(out@[j])) ==> p[i] < p[j])
            },
            forall|k: int, i: int| 0 <= k < out@.len() && 0 <= i < rest@.len() ==> {
                &&& !key_lt(kf(#[trigger] rest@[i]), kf(#[trigger] out@[k]))
                &&& (!key_lt(kf(out@[k]), kf(rest@[i])) ==> p[k] < idx[i])
            },
        decreases rest.len(),
    {
        // first position of a least entry
        let mut m: usize = 0;
        let mut j: usize = 1;
        proof { lemma_key_lt_irreflexive(kf(rest@[0])); }
        while j < rest.len()
            invariant
                rest@.len() == keys@.len(),
                forall|i: int| 0 <= i < rest@.len() ==> (#[trigger] keys@[i]).0 == kf(rest@[i]).0 && keys@[i].1@ == kf(rest@[i]).1,
                0 <= m < j <= rest@.len(),
                forall|t: int| 0 <= t < j ==> !key_lt(kf(#[trigger] rest@[t]), kf(rest@[m as int])),
                forall|t: int| 0 <= t < m ==> key_lt(kf(rest@[m as int]), kf(#[trigger] rest@[t])),
            decreases rest.len() - j,
        {
            if key_before(&keys[j], &keys[m]) {
                proof {
                    assert forall|t: int| 0 <= t < j implies key_lt(kf(rest@[j as int]), kf(#[trigger] rest@[t])) by {
                        lemma_key_lt_le(kf(rest@[j as int]), kf(rest@[m as int]), kf(rest@[t]));
                    }
                    lemma_key_lt_irreflexive(kf(rest@[j as int]));
                    assert forall|t: int| 0 <= t < j + 1 implies !key_lt(kf(#[trigger] rest@[t]), kf(rest@[j as int])) by {
                        if t < j {
                            lemma_key_lt_asym(kf(rest@[j as int]), kf(rest@[t]));
                        }
                    }
                }
                m = j;
            } else {
                assert(!key_lt(kf(rest@[j as int]), kf(rest@[m as int])));
            }
            j = j + 1;
        }
        let ghost old_rest = rest@;
        let ghost old_idx = idx;
        let ghost old_out = out@;
        let ghost old_p = p;
        let ghost old_keys = keys@;
        let ghost pick = idx[m as int];
        let e = rest.remove(m);
        let _k = keys.remove(m);
        proof {
            idx = idx.remove(m as int);
            p = p.push(pick);
        }
        out.push(e);
        proof {
            assert(e == orig[pick]);
            assert forall|i: int| 0 <= i < rest@.len() implies rest@[i] == orig[#[trigger] idx[i]] by {
                if i < m {
                    assert(rest@[i] == old_rest[i]);
                } else {
                    assert(rest@[i] == old_rest[i + 1]);
                }
            }
            assert forall|i: int| 0 <= i < rest@.len() implies (#[trigger] keys@[i]).0 == kf(rest@[i]).0 && keys@[i].1@ == kf(rest@[i]).1 by {
                if i < m {
                    assert(keys@[i] == old_keys[i]);
                    assert(rest@[i] == old_rest[i]);
                } else {
                    assert(rest@[i] == old_rest[i + 1]);
                }
            }
            assert forall|i: int, j2: int| 0 <= i < j2 < idx.len() implies #[trigger] idx[i] < #[trigger] idx[j2] by {
                if i < m && j2 >= m {
                    assert(old_idx[i] < old_idx[j2 + 1]);
                } else if i >= m {
                    assert(old_idx[i + 1] < old_idx[j2 + 1]);
                }
            }
            assert forall|k: int, i: int| 0 <= k < p.len() && 0 <= i < idx.len() implies #[trigger] p[k] != #[trigger] idx[i] by {
                let oi = if i < m { i } else { i + 1 };
                assert(idx[i] == old_idx[oi]);
                if k == p.len() - 1 {
                    assert(old_idx[m as int] != old_idx[oi]);
                } else {
                    assert(p[k] == old_p[k]);
                }
            }
            assert forall|k1: int, k2: int| 0 <= k1 < k2 < p.len() implies #[trigger] p[k1] != #[trigger] p[k2] by {
                if k2 == p.len() - 1 {
                    assert(old_p[k1] != old_idx[m as int]);
                } else {
                    assert(old_p[k1] != old_p[k2]);
                }
            }
            assert forall|k: int| 0 <= k < out@.len() implies out@[k] == orig[#[trigger] p[k]] by {
                if k < old_out.len() {
                    assert(out@[k] == old_out[k]);
                }
            }
            assert forall|i: int, j2: int| 0 <= i < j2 < out@.len() implies {
                &&& !key_lt(kf(#[trigger] out@[j2]), kf(#[trigger] out@[i]))
                &&& (!key_lt(kf(out@[i]), kf(out@[j2])) ==> p[i] < p[j2])
            } by {
                if j2 == out@.len() - 1 {
                    assert(out@[j2] == old_rest[m as int]);
                    assert(out@[i] == old_out[i]);
                } else {
                    assert(out@[i] == old_out[i]);
                    assert(out@[j2] == old_out[j2]);
                }
            }
            assert forall|k: int, i: int| 0 <= k < out@.len() && 0 <= i < rest@.len() implies {
                &&& !key_lt(kf(#[trigger] rest@[i]), kf(#[trigger] out@[k]))
                &&& (!key_lt(kf(out@[k]), kf(rest@[i])) ==> p[k] < idx[i])
            } by {
                let oi = if i < m { i } else { i + 1 };
                assert(rest@[i] == old_rest[oi]);
                assert(idx[i] == old_idx[oi]);
                if k == out@.len() - 1 {
                    assert(out@[k] == old_rest[m as int]);
                    if oi < m {
                        lemma_key_lt_asym(kf(old_rest[m as int]), kf(old_rest[oi]));
                    } else {
                        assert(old_idx[m as int] < old_idx[oi]);
                    }
                } else {
                    assert(out@[k] == old_out[k]);
                }
            }
        }
    }
    proof {
        assert(is_permutation_map(p, n));
        assert(out@.len() == orig.len());
    }
    out
}

proof fn lemma_key_lt_asym(a: (bool, Seq<char>), b: (bool, Seq<char>))
    requires
        key_lt(a, b),
    ensures
        !key_lt(b, a),
{
    lemma_seq_lt_asymmetric(a.1, b.1);
}

/// A permutation map reaches every position.
proof fn lemma_permutation_onto(p: Seq<int>, n: nat, x: int)
    requires
        is_permutation_map(p, n),
        0 <= x < n,
    ensures
        exists|i: int| 0 <= i < n && p[i] == x,
{
    broadcast use vstd::seq_lib::seq_to_set_is_finite;
    assert(p.no_duplicates()) by {
        assert forall|i: int, j: int| 0 <= i < p.len() && 0 <= j < p.len() && i != j implies p[i] != p[j] by {
            if i < j {
                assert(p[i] != p[j]);
            } else {
                assert(p[j] != p[i]);
            }
        }
    }
    p.unique_seq_to_set();
    vstd::set_lib::lemma_int_range(0, n as int);
    let range = vstd::set_lib::set_int_range(0, n as int);
    assert(p.to_set().subset_of(range)) by {
        assert forall|v: int| p.to_set().contains(v) implies range.contains(v) by {
            let i = choose|i: int| 0 <= i < p.len() && p[i] == v;
            assert(0 <= p[i] < n);
        }
    }
    vstd::set_lib::lemma_subset_equality(p.to_set(), range);
    assert(range.contains(x));
    assert(p.to_set().contains(x));
}

/// What a filtered sequence holds: the items of the sequence that meet the
/// predicate.
pub proof fn lemma_filter_member<T>(s: Seq<T>, pred: spec_fn(T) -> bool, x: T)
    ensures
        s.filter(pred).contains(x) <==> (s.contains(x) && pred(x)),
    decreases s.len(),
{
    reveal(Seq::filter);
    if s.len() > 0 {
        let rest = s.drop_last();
        lemma_filter_member(rest, pred, x);
        let f = rest.filter(pred);
        if s.contains(x) && pred(x) {
            let i = choose|i: int| 0 <= i < s.len() && s[i] == x;
            if i < s.len() - 1 {
                assert(rest[i] == x);
                let k = choose|k: int| 0 <= k < f.len() && f[k] == x;
                if pred(s.last()) {
                    assert(f.push(s.last())[k] == x);
                }
            } else {
                assert(f.push(s.last())[f.len() as int] == x);
            }
        }
        if s.filter(pred).contains(x) {
            let k = choose|k: int| 0 <= k < s.filter(pred).len() && s.filter(pred)[k] == x;
            if pred(s.last()) && k == f.len() {
                assert(s[s.len() - 1] == x);
            } else {
                assert(f[k] == x);
                let i = choose|i: int| 0 <= i < rest.len() && rest[i] == x;
                assert(s[i] == x);
            }
        }
    }
}

/// A relation that holds of every earlier and later item of a sequence
/// holds of every earlier and later item of a filtered one.
pub proof fn lemma_filter_pairwise<T>(s: Seq<T>, pred: spec_fn(T) -> bool, rel: spec_fn(T, T) -> bool)
    requires
        forall|i: int, j: int| 0 <= i < j < s.len() ==> rel(#[trigger] s[i], #[trigger] s[j]),
    ensures
        forall|i: int, j: int| 0 <= i < j < s.filter(pred).len() ==> rel(#[trigger] s.filter(pred)[i], #[trigger] s.filter(pred)[j]),
    decreases s.len(),
{
    reveal(Seq::filter);
    if s.len() > 0 {
        let rest = s.drop_last();
        assert forall|i: int, j: int| 0 <= i < j < rest.len() implies rel(#[trigger] rest[i], #[trigger] rest[j]) by {
            assert(rest[i] == s[i] && rest[j] == s[j]);
        }
        lemma_filter_pairwise(rest, pred, rel);
        let f = rest.filter(pred);
        if pred(s.last()) {
            let g = f.push(s.last());
            assert forall|i: int, j: int| 0 <= i < j < g.len() implies rel(#[trigger] g[i], #[trigger] g[j]) by {
                if j < f.len() {
                    assert(g[i] == f[i] && g[j] == f[j]);
                } else {
                    assert(g[i] == f[i]);
                    lemma_filter_member(rest, pred, f[i]);
                    assert(f.contains(f[i]));
                    let k = choose|k: int| 0 <= k < rest.len() && rest[k] == f[i];
                    assert(s[k] == f[i]);
                    assert(g[j] == s[s.len() - 1]);
                }
            }
        }
    }
}

/// A stably sorted sequence holds what its input holds, and holds no item
/// twice when its input holds none twice.
pub proof fn lemma_stably_sorted_members<T>(out: Seq<T>, inp: Seq<T>, kf: spec_fn(T) -> (bool, Seq<char>))
    requires
        stably_sorted_by(out, inp, kf),
    ensures
        forall|x: T| out.contains(x) <==> inp.contains(x),
        (forall|i: int, j: int| 0 <= i < j < inp.len() ==> inp[i] != inp[j])
            ==> (forall|i: int, j: int| 0 <= i < j < out.len() ==> out[i] != out[j]),
        forall|i: int, j: int| 0 <= i < j < out.len() ==> !key_lt(kf(#[trigger] out[j]), kf(#[trigger] out[i])),
{
    let p = choose|p: Seq<int>| {
        &&& #[trigger] is_permutation_map(p, inp.len())
        &&& out.len() == inp.len()
        &&& forall|k: int| 0 <= k < out.len() ==> out[k] == inp[#[trigger] p[k]]
        &&& forall|i: int, j: int| 0 <= i < j < out.len() ==> {
            &&& !key_lt(kf(#[trigger] out[j]), kf(#[trigger] out[i]))
            &&& (!key_lt(kf(out[i]), kf(out[j])) ==> p[i] < p[j])
        }
    };
    assert forall|x: T| out.contains(x) <==> inp.contains(x) by {
        if out.contains(x) {
            let k = choose|k: int| 0 <= k < out.len() && out[k] == x;
            assert(inp[p[k]] == x);
        }
        if inp.contains(x) {
            let m = choose|m: int| 0 <= m < inp.len() && inp[m] == x;
            lemma_permutation_onto(p, inp.len(), m);
            let k = choose|k: int| 0 <= k < inp.len() && p[k] == m;
            assert(out[k] == x);
        }
    }
    if forall|i: int, j: int| 0 <= i < j < inp.len() ==> inp[i] != inp[j] {
        assert forall|i: int, j: int| 0 <= i < j < out.len() implies out[i] != out[j] by {
            assert(out[i] == inp[p[i]] && out[j] == inp[p[j]]);
            assert(p[i] != p[j]);
            if p[i] < p[j] {
                assert(inp[p[i]] != inp[p[j]]);
            } else {
                assert(inp[p[j]] != inp[p[i]]);
            }
        }
    }
}

proof fn lemma_stable_prefix<T>(a: Seq<T>, b: Seq<T>, inp: Seq<T>, kf: spec_fn(T) -> (bool, Seq<char>),
    pa: Seq<int>, pb: Seq<int>, k: int)
    requires
        is_permutation_map(pa, inp.len()),
        is_permutation_map(pb, inp.len()),
        a.len() == inp.len(),
        b.len() == inp.len(),
        forall|q: int| 0 <= q < a.len() ==> a[q] == inp[#[trigger] pa[q]],
        forall|q: int| 0 <= q < b.len() ==> b[q] == inp[#[trigger] pb[q]],
        forall|i: int, j: int| 0 <= i < j < a.len() ==> {
            &&& !key_lt(kf(#[trigger] a[j]), kf(#[trigger] a[i]))
            &&& (!key_lt(kf(a[i]), kf(a[j])) ==> pa[i] < pa[j])
        },
        forall|i: int, j: int| 0 <= i < j < b.len() ==> {
            &&& !key_lt(kf(#[trigger] b[j]), kf(#[trigger] b[i]))
            &&& (!key_lt(kf(b[i]), kf(b[j])) ==> pb[i] < pb[j])
        },
        0 <= k <= inp.len(),
    ensures
        forall|j: int| 0 <= j < k ==> pa[j] == pb[j],
    decreases k,
{
    if k > 0 {
        lemma_stable_prefix(a, b, inp, kf, pa, pb, k - 1);
        let m = k - 1;
        let x = pa[m];
        let y = pb[m];
        if x != y {
            lemma_permutation_onto(pb, inp.len(), x);
            let k2 = choose|i: int| 0 <= i < inp.len() && pb[i] == x;
            lemma_permutation_onto(pa, inp.len(), y);
            let k1 = choose|i: int| 0 <= i < inp.len() && pa[i] == y;
            if k2 < m {
                assert(pa[k2] == pb[k2]);
                assert(pa[k2] != pa[m]);
            }
            if k1 < m {
                assert(pa[k1] == pb[k1]);
                assert(pb[k1] != pb[m]);
            }
            assert(k2 > m);
            assert(k1 > m);
            assert(b[m] == inp[y]);
            assert(b[k2] == inp[x]);
            assert(a[m] == inp[x]);
            assert(a[k1] == inp[y]);
            assert(!key_lt(kf(b[k2]), kf(b[m])));
            assert(!key_lt(kf(a[k1]), kf(a[m])));
            assert(pb[m] < pb[k2]);
            assert(pa[m] < pa[k1]);
            assert(false);
        }
    }
}

/// A stable sort has one result: two sequences that are both the input
/// stably sorted by the same keys are equal.
pub proof fn lemma_stable_sort_unique<T>(a: Seq<T>, b: Seq<T>, inp: Seq<T>, kf: spec_fn(T) -> (bool, Seq<char>))
    requires
        stably_sorted_by(a, inp, kf),
        stably_sorted_by(b, inp, kf),
    ensures
        a == b,
{
    let pa = choose|p: Seq<int>| {
        &&& #[trigger] is_permutation_map(p, inp.len())
        &&& a.len() == inp.len()
        &&& forall|k: int| 0 <= k < a.len() ==> a[k] == inp[#[trigger] p[k]]
        &&& forall|i: int, j: int| 0 <= i < j < a.len() ==> {
            &&& !key_lt(kf(#[trigger] a[j]), kf(#[trigger] a[i]))
            &&& (!key_lt(kf(a[i]), kf(a[j])) ==> p[i] < p[j])
        }
    };
    let pb = choose|p: Seq<int>| {
        &&& #[trigger] is_permutation_map(p, inp.len())
        &&& b.len() == inp.len()
        &&& forall|k: int| 0 <= k < b.len() ==> b[k] == inp[#[trigger] p[k]]
        &&& forall|i: int, j: int| 0 <= i < j < b.len() ==> {
            &&& !key_lt(kf(#[trigger] b[j]), kf(#[trigger] b[i]))
            &&& (!key_lt(kf(b[i]), kf(b[j])) ==> p[i] < p[j])
        }
    };
    lemma_stable_prefix(a, b, inp, kf, pa, pb, inp.len() as int);
    assert forall|k: int| 0 <= k < a.len() implies a[k] == b[k] by {
        assert(pa[k] == pb[k]);
    }
    assert(a =~= b);
}

} // verus!
