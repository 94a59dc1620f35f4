//! Stable ordering of records by an integer key, as the listings and the
//! load reports use it: records with equal keys keep their original order.

use vstd::prelude::*;

verus! {

broadcast use vstd::seq_lib::group_seq_properties;

/// Inserts `x` after every element whose key is not greater than its own.
pub open spec fn insert_by_key<A>(sorted: Seq<A>, x: A, key: spec_fn(A) -> int) -> Seq<A>
    decreases sorted.len(),
{
    if sorted.len() == 0 {
        seq![x]
    } else if key(x) < key(sorted.last()) {
        insert_by_key(sorted.drop_last(), x, key).push(sorted.last())
    } else {
        sorted.push(x)
    }
}

/// The stable sort of `s` by `key` (insertion of each element in turn).
pub open spec fn sort_by_key<A>(s: Seq<A>, key: spec_fn(A) -> int) -> Seq<A>
    decreases s.len(),
{
    if s.len() == 0 {
        Seq::<A>::empty()
    } else {
        insert_by_key(sort_by_key(s.drop_last(), key), s.last(), key)
    }
}

/// Keys never decrease along `s`.
pub open spec fn sorted_by_key<A>(s: Seq<A>, key: spec_fn(A) -> int) -> bool {
    forall|i: int, j: int| 0 <= i < j < s.len() ==> key(#[trigger] s[i]) <= key(#[trigger] s[j])
}

proof fn lemma_insert_by_key<A>(sorted: Seq<A>, x: A, key: spec_fn(A) -> int)
    requires
        sorted_by_key(sorted, key),
    ensures
        sorted_by_key(insert_by_key(sorted, x, key), key),
        insert_by_key(sorted, x, key).to_multiset() =~= sorted.to_multiset().insert(x),
        insert_by_key(sorted, x, key).len() == sorted.len() + 1,
        forall|k: int|
            0 <= k < sorted.len() + 1 ==> #[trigger] insert_by_key(sorted, x, key)[k] == x
                || sorted.contains(insert_by_key(sorted, x, key)[k]),
    decreases sorted.len(),
{
    broadcast use vstd::multiset::group_multiset_axioms;

    let r = insert_by_key(sorted, x, key);
    if sorted.len() == 0 {
        assert(r =~= seq![x]);
        assert(Seq::<A>::empty().push(x) =~= seq![x]);
    } else if key(x) < key(sorted.last()) {
        let s0 = sorted.drop_last();
        let last = sorted.last();
        assert(sorted_by_key(s0, key));
        lemma_insert_by_key(s0, x, key);
        let r0 = insert_by_key(s0, x, key);
        assert(r == r0.push(last));
        assert forall|k: int| 0 <= k < r.len() implies #[trigger] r[k] == x || sorted.contains(r[k]) by {
            if k < r0.len() {
                assert(r[k] == r0[k]);
                if r0[k] != x {
                    assert(s0.contains(r0[k]));
                    let m = choose|m: int| 0 <= m < s0.len() && s0[m] == r0[k];
                    assert(sorted[m] == r0[k]);
                }
            } else {
                assert(sorted[sorted.len() - 1] == r[k]);
            }
        }
        assert forall|i: int, j: int| 0 <= i < j < r.len() implies key(#[trigger] r[i]) <= key(
            #[trigger] r[j],
        ) by {
            if j < r0.len() {
                assert(r[i] == r0[i] && r[j] == r0[j]);
            } else {
                assert(r[j] == last);
                assert(r[i] == r0[i]);
                if r0[i] != x {
                    assert(s0.contains(r0[i]));
                    let m = choose|m: int| 0 <= m < s0.len() && s0[m] == r0[i];
                    assert(sorted[m] == r0[i]);
                    assert(key(sorted[m]) <= key(sorted[sorted.len() - 1]));
                }
            }
        }
        assert(sorted =~= s0.push(last));
        assert(r.to_multiset() =~= r0.to_multiset().insert(last));
        assert(sorted.to_multiset() =~= s0.to_multiset().insert(last));
    } else {
        assert(r == sorted.push(x));
        assert forall|k: int| 0 <= k < r.len() implies #[trigger] r[k] == x || sorted.contains(r[k]) by {
            if k < sorted.len() {
                assert(r[k] == sorted[k]);
            }
        }
        assert forall|i: int, j: int| 0 <= i < j < r.len() implies key(#[trigger] r[i]) <= key(
            #[trigger] r[j],
        ) by {
            if j < sorted.len() {
                assert(r[i] == sorted[i] && r[j] == sorted[j]);
            } else {
                assert(r[i] == sorted[i]);
                if i < sorted.len() - 1 {
                    assert(key(sorted[i]) <= key(sorted[sorted.len() - 1]));
                }
            }
        }
    }
}

/// The stable sort orders the records by key and keeps exactly the same
/// records: it is a sorted permutation of its input.
pub proof fn lemma_sort_by_key<A>(s: Seq<A>, key: spec_fn(A) -> int)
    ensures
        sorted_by_key(sort_by_key(s, key), key),
        sort_by_key(s, key).to_multiset() =~= s.to_multiset(),
        sort_by_key(s, key).len() == s.len(),
    decreases s.len(),
{
    broadcast use vstd::multiset::group_multiset_axioms;

    if s.len() == 0 {
        assert(sort_by_key(s, key) =~= Seq::<A>::empty());
    } else {
        let s0 = s.drop_last();
        lemma_sort_by_key(s0, key);
        lemma_insert_by_key(sort_by_key(s0, key), s.last(), key);
        assert(s =~= s0.push(s.last()));
        assert(s.to_multiset() =~= s0.to_multiset().insert(s.last()));
    }
}

/// Inserting at position `k`, where every element from `k` on has a greater
/// key than `x` and the element before `k` does not.
pub proof fn lemma_insert_by_key_at<A>(sorted: Seq<A>, x: A, key: spec_fn(A) -> int, k: int)
    requires
        0 <= k <= sorted.len(),
        forall|j: int| k <= j < sorted.len() ==> key(x) < key(#[trigger] sorted[j]),
        k > 0 ==> !(key(x) < key(sorted[k - 1])),
    ensures
        insert_by_key(sorted, x, key) == sorted.insert(k, x),
    decreases sorted.len(),
{
    if sorted.len() == 0 {
        assert(sorted.insert(k, x) =~= seq![x]);
    } else if k == sorted.len() {
        assert(sorted.insert(k, x) =~= sorted.push(x));
    } else {
        let s0 = sorted.drop_last();
        assert(key(x) < key(sorted[sorted.len() - 1]));
        assert forall|j: int| k <= j < s0.len() implies key(x) < key(#[trigger] s0[j]) by {
            assert(s0[j] == sorted[j]);
        }
        if k > 0 {
            assert(s0[k - 1] == sorted[k - 1]);
        }
        lemma_insert_by_key_at(s0, x, key, k);
        assert(s0.insert(k, x).push(sorted.last()) =~= sorted.insert(k, x));
    }
}

/// Taking the first `n` records of a sorted sequence keeps it sorted.
pub proof fn lemma_sorted_take<A>(s: Seq<A>, key: spec_fn(A) -> int, n: int)
    requires
        sorted_by_key(s, key),
        0 <= n <= s.len(),
    ensures
        sorted_by_key(s.take(n), key),
{
    assert forall|i: int, j: int| 0 <= i < j < s.take(n).len() implies key(
        #[trigger] s.take(n)[i],
    ) <= key(#[trigger] s.take(n)[j]) by {
        assert(s.take(n)[i] == s[i] && s.take(n)[j] == s[j]);
    }
}

} // verus!
