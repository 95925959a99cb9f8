//! General lemmas about filtered sequences, used by the state transitions and
//! the view projection.

use vstd::prelude::*;

verus! {

/// Filtering keeps a sequence unchanged when every element passes.
pub proof fn lemma_filter_all_true<A>(s: Seq<A>, p: spec_fn(A) -> bool)
    requires
        forall|i: int| 0 <= i < s.len() ==> p(#[trigger] s[i]),
    ensures
        s.filter(p) == s,
    decreases s.len(),
{
    reveal(Seq::filter);
    if s.len() > 0 {
        let t = s.drop_last();
        assert(forall|i: int| 0 <= i < t.len() ==> p(#[trigger] t[i]));
        lemma_filter_all_true(t, p);
        assert(t.push(s.last()) =~= s);
    }
}

/// How filtering treats one appended element.
pub proof fn lemma_filter_push<A>(s: Seq<A>, p: spec_fn(A) -> bool, x: A)
    ensures
        p(x) ==> s.push(x).filter(p) == s.filter(p).push(x),
        !p(x) ==> s.push(x).filter(p) == s.filter(p),
{
    reveal(Seq::filter);
    let q = s.push(x);
    assert(q.last() == x);
    assert(q.drop_last() =~= s);
}

/// Every element of a filtered sequence occurs in the unfiltered one, and filtering
/// keeps a strictly increasing measure strictly increasing.
pub proof fn lemma_filter_ordered<A>(s: Seq<A>, p: spec_fn(A) -> bool, m: spec_fn(A) -> int)
    ensures
        forall|i: int| 0 <= i < s.filter(p).len() ==> s.contains(#[trigger] s.filter(p)[i]),
        (forall|i: int, j: int| 0 <= i < j < s.len() ==> m(s[i]) < m(s[j])) ==> (forall|i: int,
            j: int|
            0 <= i < j < s.filter(p).len() ==> m(s.filter(p)[i]) < m(s.filter(p)[j])),
    decreases s.len(),
{
    reveal(Seq::filter);
    if s.len() > 0 {
        let t = s.drop_last();
        lemma_filter_ordered(t, p, m);
        let f = s.filter(p);
        let ft = t.filter(p);
        assert forall|i: int| 0 <= i < f.len() implies s.contains(#[trigger] f[i]) by {
            if i < ft.len() {
                assert(t.contains(ft[i]));
                let k = choose|k: int| 0 <= k < t.len() && t[k] == ft[i];
                assert(s[k] == f[i]);
            } else {
                assert(f[i] == s.last());
                assert(s[s.len() - 1] == s.last());
            }
        }
        if forall|i: int, j: int| 0 <= i < j < s.len() ==> m(#[trigger] s[i]) < m(#[trigger] s[j]) {
            assert(forall|i: int, j: int|
                0 <= i < j < t.len() ==> m(#[trigger] t[i]) < m(#[trigger] t[j]));
            assert forall|i: int, j: int| 0 <= i < j < f.len() implies m(f[i]) < m(f[j]) by {
                if j < ft.len() {
                    assert(m(ft[i]) < m(ft[j]));
                } else {
                    assert(f[j] == s.last());
                    assert(t.contains(ft[i]));
                    let k = choose|k: int| 0 <= k < t.len() && t[k] == ft[i];
                    assert(m(s[k]) < m(s[s.len() - 1]));
                }
            }
        }
    }
}

/// The two halves of a partition account for the whole length.
pub proof fn lemma_filter_partition<A>(s: Seq<A>, p: spec_fn(A) -> bool, q: spec_fn(A) -> bool)
    requires
        forall|x: A| #[trigger] q(x) <==> !p(x),
    ensures
        s.filter(p).len() + s.filter(q).len() == s.len(),
    decreases s.len(),
{
    reveal(Seq::filter);
    if s.len() > 0 {
        lemma_filter_partition(s.drop_last(), p, q);
    }
}

/// Removing the one element that fails the predicate is the same as
/// filtering, when every other element passes.
pub proof fn lemma_remove_is_filter<A>(s: Seq<A>, p: spec_fn(A) -> bool, i: int)
    requires
        0 <= i < s.len(),
        !p(s[i]),
        forall|j: int| 0 <= j < s.len() && j != i ==> p(#[trigger] s[j]),
    ensures
        s.filter(p) == s.remove(i),
    decreases s.len(),
{
    reveal(Seq::filter);
    let t = s.drop_last();
    if i == s.len() - 1 {
        assert(forall|j: int| 0 <= j < t.len() ==> p(#[trigger] t[j]));
        lemma_filter_all_true(t, p);
        assert(s.remove(i) =~= t);
    } else {
        assert(p(s.last()));
        lemma_remove_is_filter(t, p, i);
        assert(s.remove(i) =~= t.remove(i).push(s.last()));
    }
}

} // verus!
