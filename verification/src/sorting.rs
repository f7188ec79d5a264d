//! A stable insertion sort, defined as a spec-level function together with
//! the lemmas the store and the view engine need: the result is sorted, is
//! a permutation of the input, and sorting is idempotent.

use vstd::prelude::*;

verus! {

/// A total preorder: every pair of elements is comparable, and the
/// relation is transitive.
pub open spec fn total_leq<A>(leq: spec_fn(A, A) -> bool) -> bool {
    &&& forall|a: A, b: A| #[trigger] leq(a, b) || #[trigger] leq(b, a)
    &&& forall|a: A, b: A, c: A| #[trigger] leq(a, b) && #[trigger] leq(b, c) ==> leq(a, c)
}

/// Nondecreasing under `leq`.
pub open spec fn sorted_by<A>(s: Seq<A>, leq: spec_fn(A, A) -> bool) -> bool {
    forall|i: int, j: int| 0 <= i < j < s.len() ==> #[trigger] leq(s[i], s[j])
}

/// Inserts `t` into the sorted sequence `s`, after every element that
/// compares less-or-equal to it (so a run of equals keeps its order).
pub open spec fn insert_by<A>(s: Seq<A>, t: A, leq: spec_fn(A, A) -> bool) -> Seq<A>
    decreases s.len(),
{
    if s.len() == 0 {
        seq![t]
    } else if leq(s.last(), t) {
        s.push(t)
    } else {
        insert_by(s.drop_last(), t, leq).push(s.last())
    }
}

/// Stable insertion sort: each element in turn is inserted into the
/// sorted sequence of the elements before it.
pub open spec fn sort_by_insertion<A>(s: Seq<A>, leq: spec_fn(A, A) -> bool) -> Seq<A>
    decreases s.len(),
{
    if s.len() == 0 {
        seq![]
    } else {
        insert_by(sort_by_insertion(s.drop_last(), leq), s.last(), leq)
    }
}

/// Where the insertion lands: if everything from `idx` on is strictly
/// greater than `t` and the element before `idx` (if any) is not, then
/// `t` goes exactly at position `idx`.
pub proof fn lemma_insert_by_at<A>(s: Seq<A>, t: A, leq: spec_fn(A, A) -> bool, idx: int)
    requires
        0 <= idx <= s.len(),
        forall|k: int| idx <= k < s.len() ==> !leq(#[trigger] s[k], t),
        idx == 0 || leq(s[idx - 1], t),
    ensures
        insert_by(s, t, leq) == s.take(idx) + seq![t] + s.skip(idx),
    decreases s.len(),
{
    if s.len() == 0 {
        assert(insert_by(s, t, leq) =~= s.take(idx) + seq![t] + s.skip(idx));
    } else if leq(s.last(), t) {
        assert(idx == s.len());
        assert(s.take(idx) =~= s);
        assert(insert_by(s, t, leq) =~= s.take(idx) + seq![t] + s.skip(idx));
    } else {
        assert(idx < s.len());
        lemma_insert_by_at(s.drop_last(), t, leq, idx);
        assert(s.drop_last().take(idx) =~= s.take(idx));
        assert(insert_by(s.drop_last(), t, leq).push(s.last()) =~= s.take(idx) + seq![t]
            + s.skip(idx));
    }
}

/// Inserting into a sorted sequence keeps it sorted.
pub proof fn lemma_insert_by_sorted<A>(s: Seq<A>, t: A, leq: spec_fn(A, A) -> bool)
    requires
        sorted_by(s, leq),
        total_leq(leq),
    ensures
        sorted_by(insert_by(s, t, leq), leq),
    decreases s.len(),
{
    if s.len() == 0 {
    } else if leq(s.last(), t) {
        let r = s.push(t);
        assert forall|i: int, j: int| 0 <= i < j < r.len() implies #[trigger] leq(r[i], r[j]) by {
            if j == r.len() - 1 {
                if i == s.len() - 1 {
                } else {
                    assert(leq(s[i], s[s.len() - 1]));
                }
            }
        }
    } else {
        assert(sorted_by(s.drop_last(), leq));
        lemma_insert_by_sorted(s.drop_last(), t, leq);
        let q = insert_by(s.drop_last(), t, leq);
        let r = q.push(s.last());
        assert(!leq(s.last(), t));
        assert(leq(t, s.last()));
        assert forall|i: int, j: int| 0 <= i < j < r.len() implies #[trigger] leq(r[i], r[j]) by {
            if j == r.len() - 1 {
                // r[j] is s.last(); r[i] is either from s.drop_last() or is t.
                lemma_insert_by_membership(s.drop_last(), t, leq, i);
                if r[i] == t {
                } else {
                    let k = choose|k: int|
                        0 <= k < s.len() - 1 && s.drop_last()[k] == q[i];
                    assert(leq(s[k], s[s.len() - 1]));
                }
            }
        }
    }
}

/// Every element of `insert_by(s, t, leq)` is `t` or an element of `s`.
pub proof fn lemma_insert_by_membership<A>(
    s: Seq<A>,
    t: A,
    leq: spec_fn(A, A) -> bool,
    i: int,
)
    requires
        0 <= i < insert_by(s, t, leq).len(),
    ensures
        insert_by(s, t, leq)[i] == t || exists|k: int|
            0 <= k < s.len() && s[k] == insert_by(s, t, leq)[i],
    decreases s.len(),
{
    if s.len() == 0 {
    } else if leq(s.last(), t) {
    } else {
        if i < insert_by(s, t, leq).len() - 1 {
            lemma_insert_by_membership(s.drop_last(), t, leq, i);
            if insert_by(s, t, leq)[i] != t {
                let k = choose|k: int|
                    0 <= k < s.len() - 1 && s.drop_last()[k] == insert_by(s.drop_last(), t, leq)[i];
                assert(s[k] == insert_by(s, t, leq)[i]);
            }
        } else {
            assert(s[s.len() - 1] == insert_by(s, t, leq)[i]);
        }
    }
}

/// The sort returns a sorted sequence.
pub proof fn lemma_sort_by_insertion_sorted<A>(s: Seq<A>, leq: spec_fn(A, A) -> bool)
    requires
        total_leq(leq),
    ensures
        sorted_by(sort_by_insertion(s, leq), leq),
    decreases s.len(),
{
    if s.len() > 0 {
        lemma_sort_by_insertion_sorted(s.drop_last(), leq);
        lemma_insert_by_sorted(sort_by_insertion(s.drop_last(), leq), s.last(), leq);
    }
}

/// The sort returns a permutation: the multiset of elements is unchanged.
pub proof fn lemma_insert_by_multiset<A>(s: Seq<A>, t: A, leq: spec_fn(A, A) -> bool)
    ensures
        insert_by(s, t, leq).to_multiset() == s.to_multiset().insert(t),
    decreases s.len(),
{
    broadcast use vstd::seq_lib::group_to_multiset_ensures;

    if s.len() == 0 {
        assert(seq![t] =~= Seq::<A>::empty().push(t));
        assert(insert_by(s, t, leq).to_multiset() =~= s.to_multiset().insert(t));
    } else if leq(s.last(), t) {
    } else {
        lemma_insert_by_multiset(s.drop_last(), t, leq);
        assert(s =~= s.drop_last().push(s.last()));
        assert(s.to_multiset() =~= s.drop_last().to_multiset().insert(s.last()));
        assert(insert_by(s, t, leq).to_multiset() =~= insert_by(s.drop_last(), t, leq)
            .to_multiset()
            .insert(s.last()));
        assert(s.drop_last().to_multiset().insert(t).insert(s.last()) =~= s.drop_last()
            .to_multiset()
            .insert(s.last())
            .insert(t));
    }
}

pub proof fn lemma_sort_by_insertion_multiset<A>(s: Seq<A>, leq: spec_fn(A, A) -> bool)
    ensures
        sort_by_insertion(s, leq).to_multiset() == s.to_multiset(),
    decreases s.len(),
{
    broadcast use vstd::seq_lib::group_to_multiset_ensures;

    if s.len() > 0 {
        lemma_sort_by_insertion_multiset(s.drop_last(), leq);
        lemma_insert_by_multiset(sort_by_insertion(s.drop_last(), leq), s.last(), leq);
        assert(s =~= s.drop_last().push(s.last()));
        assert(s.to_multiset() =~= s.drop_last().to_multiset().insert(s.last()));
    }
}

/// Sorting a sorted sequence returns it unchanged.
pub proof fn lemma_sort_by_insertion_of_sorted<A>(s: Seq<A>, leq: spec_fn(A, A) -> bool)
    requires
        sorted_by(s, leq),
    ensures
        sort_by_insertion(s, leq) == s,
    decreases s.len(),
{
    if s.len() == 0 {
        assert(sort_by_insertion(s, leq) =~= s);
    } else {
        assert(sorted_by(s.drop_last(), leq));
        lemma_sort_by_insertion_of_sorted(s.drop_last(), leq);
        if s.len() == 1 {
            assert(sort_by_insertion(s, leq) =~= seq![s.last()]);
            assert(s =~= seq![s.last()]);
        } else {
            assert(leq(s[s.len() - 2], s[s.len() - 1]));
            assert(s.drop_last().last() == s[s.len() - 2]);
            assert(sort_by_insertion(s, leq) == s.drop_last().push(s.last()));
            assert(s.drop_last().push(s.last()) =~= s);
        }
    }
}

/// Sorting is idempotent.
pub proof fn lemma_sort_by_insertion_idempotent<A>(s: Seq<A>, leq: spec_fn(A, A) -> bool)
    requires
        total_leq(leq),
    ensures
        sort_by_insertion(sort_by_insertion(s, leq), leq) == sort_by_insertion(s, leq),
{
    lemma_sort_by_insertion_sorted(s, leq);
    lemma_sort_by_insertion_of_sorted(sort_by_insertion(s, leq), leq);
}

} // verus!
