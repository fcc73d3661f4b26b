//! Small general lemmas about sequence filtering, used by the history stores.

use vstd::prelude::*;

verus! {

/// All elements of `s` map to pairwise different keys under `f`.
pub open spec fn distinct_by<A, K>(s: Seq<A>, f: spec_fn(A) -> K) -> bool {
    forall|i: int, j: int| 0 <= i < j < s.len() ==> f(#[trigger] s[i]) != f(#[trigger] s[j])
}

/// Filtering a prefix one element longer appends that element when it passes.
pub proof fn lemma_filter_take_step<A>(s: Seq<A>, p: spec_fn(A) -> bool, i: int)
    requires
        0 <= i < s.len(),
    ensures
        s.take(i + 1).filter(p) == if p(s[i]) {
            s.take(i).filter(p).push(s[i])
        } else {
            s.take(i).filter(p)
        },
    decreases s.len(),
{
    reveal(Seq::filter);
    assert(s.take(i + 1).drop_last() =~= s.take(i));
    assert(s.take(i + 1).last() == s[i]);
    if p(s[i]) {
        assert(s.take(i + 1).filter(p) =~= s.take(i).filter(p).push(s[i]));
    }
}

/// A whole sequence is the filtering of its full-length prefix.
pub proof fn lemma_filter_take_all<A>(s: Seq<A>, p: spec_fn(A) -> bool)
    ensures
        s.take(s.len() as int).filter(p) == s.filter(p),
{
    assert(s.take(s.len() as int) =~= s);
}

/// Every element of a filtered sequence is an element of the original.
pub proof fn lemma_filter_contains_only<A>(s: Seq<A>, p: spec_fn(A) -> bool)
    ensures
        forall|x: A| #[trigger] s.filter(p).contains(x) ==> s.contains(x),
    decreases s.len(),
{
    reveal(Seq::filter);
    if s.len() > 0 {
        let dl = s.drop_last();
        lemma_filter_contains_only(dl, p);
        assert forall|x: A| #[trigger] s.filter(p).contains(x) implies s.contains(x) by {
            if dl.filter(p).contains(x) {
                let k = choose|k: int| 0 <= k < dl.len() && dl[k] == x;
                assert(s[k] == x);
            } else {
                assert(x == s.last());
                assert(s[s.len() - 1] == x);
            }
        }
    }
}

/// Removing an element preserves pairwise distinctness of keys.
pub proof fn lemma_remove_distinct_by<A, K>(s: Seq<A>, i: int, f: spec_fn(A) -> K)
    requires
        0 <= i < s.len(),
        distinct_by(s, f),
    ensures
        distinct_by(s.remove(i), f),
{
    s.remove_ensures(i);
    assert forall|a: int, b: int|
        0 <= a < b < s.remove(i).len() implies f(#[trigger] s.remove(i)[a]) != f(
        #[trigger] s.remove(i)[b]) by {
        let a2 = if a < i { a } else { a + 1 };
        let b2 = if b < i { b } else { b + 1 };
        assert(s.remove(i)[a] == s[a2]);
        assert(s.remove(i)[b] == s[b2]);
    }
}

/// Replacing an element by one with the same key preserves distinctness.
pub proof fn lemma_update_distinct_by<A, K>(s: Seq<A>, i: int, x: A, f: spec_fn(A) -> K)
    requires
        0 <= i < s.len(),
        distinct_by(s, f),
        f(x) == f(s[i]),
    ensures
        distinct_by(s.update(i, x), f),
{
    assert forall|a: int, b: int|
        0 <= a < b < s.update(i, x).len() implies f(#[trigger] s.update(i, x)[a]) != f(
        #[trigger] s.update(i, x)[b]) by {
        assert(f(s.update(i, x)[a]) == f(s[a]));
        assert(f(s.update(i, x)[b]) == f(s[b]));
    }
}

/// Filtering preserves pairwise distinctness of keys.
pub proof fn lemma_filter_distinct_by<A, K>(s: Seq<A>, p: spec_fn(A) -> bool, f: spec_fn(A) -> K)
    requires
        distinct_by(s, f),
    ensures
        distinct_by(s.filter(p), f),
    decreases s.len(),
{
    reveal(Seq::filter);
    if s.len() > 0 {
        let dl = s.drop_last();
        assert(distinct_by(dl, f));
        lemma_filter_distinct_by(dl, p, f);
        lemma_filter_contains_only(dl, p);
        let fdl = dl.filter(p);
        if p(s.last()) {
            assert forall|i: int, j: int|
                0 <= i < j < s.filter(p).len() implies f(#[trigger] s.filter(p)[i]) != f(
                #[trigger] s.filter(p)[j]) by {
                if j == s.filter(p).len() - 1 {
                    assert(s.filter(p)[j] == s.last());
                    assert(fdl.contains(fdl[i]));
                    let m = choose|m: int| 0 <= m < dl.len() && dl[m] == fdl[i];
                    assert(f(s[m]) != f(s[s.len() - 1]));
                }
            }
        }
    }
}

} // verus!
