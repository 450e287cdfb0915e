//! Stable insertion order: the specification of a stable sort by a strict
//! "goes after" relation.

use vstd::prelude::*;

verus! {

/// Inserts `x` into `s` after every element that does not go after it.
pub open spec fn insert_sorted<A>(s: Seq<A>, x: A, after: spec_fn(A, A) -> bool) -> Seq<A>
    decreases s.len(),
{
    if s.len() == 0 {
        seq![x]
    } else if !after(s.last(), x) {
        s.push(x)
    } else {
        insert_sorted(s.drop_last(), x, after).push(s.last())
    }
}

/// `s` stably sorted: elements move before an earlier one only if that one
/// goes after them (what `sort_by`/`sort_by_key` produce).
pub open spec fn stable_sorted<A>(s: Seq<A>, after: spec_fn(A, A) -> bool) -> Seq<A>
    decreases s.len(),
{
    if s.len() == 0 {
        s
    } else {
        insert_sorted(stable_sorted(s.drop_last(), after), s.last(), after)
    }
}

/// Inserting at the first position from the end whose predecessor does not
/// go after `x` is `insert_sorted`.
pub proof fn lemma_insert_sorted_at<A>(s: Seq<A>, x: A, p: int, after: spec_fn(A, A) -> bool)
    requires
        0 <= p <= s.len(),
        forall|k: int| p <= k < s.len() ==> after(#[trigger] s[k], x),
        p == 0 || !after(s[p - 1], x),
    ensures
        insert_sorted(s, x, after) == s.insert(p, x),
    decreases s.len(),
{
    if s.len() == 0 {
        assert(s.insert(p, x) =~= seq![x]);
    } else if !after(s.last(), x) {
        assert(p == s.len());
        assert(s.insert(p, x) =~= s.push(x));
    } else {
        let t = s.drop_last();
        assert(p < s.len());
        assert forall|k: int| p <= k < t.len() implies after(#[trigger] t[k], x) by {
            assert(t[k] == s[k]);
        }
        if p > 0 {
            assert(t[p - 1] == s[p - 1]);
        }
        lemma_insert_sorted_at(t, x, p, after);
        assert(t.insert(p, x).push(s.last()) =~= s.insert(p, x));
    }
}

/// The length of an insertion.
pub proof fn lemma_insert_sorted_len<A>(s: Seq<A>, x: A, after: spec_fn(A, A) -> bool)
    ensures
        insert_sorted(s, x, after).len() == s.len() + 1,
    decreases s.len(),
{
    if s.len() > 0 && after(s.last(), x) {
        lemma_insert_sorted_len(s.drop_last(), x, after);
    }
}

/// A stable sort keeps every element: the same multiset.
pub proof fn lemma_stable_sorted_permutes<A>(s: Seq<A>, after: spec_fn(A, A) -> bool)
    ensures
        stable_sorted(s, after).to_multiset() == s.to_multiset(),
    decreases s.len(),
{
    broadcast use vstd::seq_lib::group_to_multiset_ensures;

    if s.len() > 0 {
        let t = s.drop_last();
        lemma_stable_sorted_permutes(t, after);
        lemma_insert_sorted_permutes(stable_sorted(t, after), s.last(), after);
        assert(s =~= t.push(s.last()));
    }
}

/// Inserting adds exactly the inserted element.
pub proof fn lemma_insert_sorted_permutes<A>(s: Seq<A>, x: A, after: spec_fn(A, A) -> bool)
    ensures
        insert_sorted(s, x, after).to_multiset() == s.to_multiset().insert(x),
    decreases s.len(),
{
    broadcast use vstd::seq_lib::group_to_multiset_ensures;

    if s.len() == 0 {
        assert(seq![x] =~= Seq::<A>::empty().push(x));
    } else if !after(s.last(), x) {
    } else {
        let t = s.drop_last();
        lemma_insert_sorted_permutes(t, x, after);
        assert(s =~= t.push(s.last()));
        assert(insert_sorted(t, x, after).push(s.last()).to_multiset() =~= t.to_multiset().insert(
            x,
        ).insert(s.last()));
        assert(s.to_multiset().insert(x) =~= t.to_multiset().insert(s.last()).insert(x));
    }
}

/// `s` is in order: no element goes after a later one.
pub open spec fn in_order<A>(s: Seq<A>, after: spec_fn(A, A) -> bool) -> bool {
    forall|i: int, j: int| 0 <= i < j < s.len() ==> !after(#[trigger] s[i], #[trigger] s[j])
}

/// The order properties a "goes after" relation needs for sorting by it.
pub open spec fn orders<A>(after: spec_fn(A, A) -> bool) -> bool {
    &&& forall|a: A, b: A| #[trigger] after(a, b) ==> !after(b, a)
    &&& forall|a: A, b: A, c: A|
        !(#[trigger] after(a, b)) && !(#[trigger] after(b, c)) ==> !(#[trigger] after(a, c))
}

proof fn lemma_insert_sorted_elements<A>(s: Seq<A>, x: A, after: spec_fn(A, A) -> bool)
    ensures
        forall|i: int|
            0 <= i < insert_sorted(s, x, after).len() ==> #[trigger] insert_sorted(s, x, after)[i]
                == x || s.contains(insert_sorted(s, x, after)[i]),
    decreases s.len(),
{
    lemma_insert_sorted_len(s, x, after);
    if s.len() > 0 && after(s.last(), x) {
        let t = s.drop_last();
        lemma_insert_sorted_elements(t, x, after);
        lemma_insert_sorted_len(t, x, after);
        let r = insert_sorted(s, x, after);
        assert forall|i: int| 0 <= i < r.len() implies #[trigger] r[i] == x || s.contains(r[i]) by {
            if i < r.len() - 1 {
                if r[i] != x {
                    let k = choose|k: int| 0 <= k < t.len() && t[k] == r[i];
                    assert(s[k] == r[i]);
                }
            } else {
                assert(s[s.len() - 1] == r[i]);
            }
        }
    } else if s.len() > 0 {
        let r = insert_sorted(s, x, after);
        assert forall|i: int| 0 <= i < r.len() implies #[trigger] r[i] == x || s.contains(r[i]) by {
            if i < s.len() {
                assert(s[i] == r[i]);
            }
        }
    }
}

proof fn lemma_insert_sorted_in_order<A>(s: Seq<A>, x: A, after: spec_fn(A, A) -> bool)
    requires
        orders(after),
        in_order(s, after),
    ensures
        in_order(insert_sorted(s, x, after), after),
    decreases s.len(),
{
    if s.len() == 0 {
    } else if !after(s.last(), x) {
        let r = s.push(x);
        assert forall|i: int, j: int| 0 <= i < j < r.len() implies !after(
            #[trigger] r[i],
            #[trigger] r[j],
        ) by {
            if j == s.len() && i < s.len() - 1 {
                assert(!after(s[i], s[s.len() - 1]));
            }
        }
    } else {
        let t = s.drop_last();
        let l = s.last();
        assert(in_order(t, after)) by {
            assert forall|i: int, j: int| 0 <= i < j < t.len() implies !after(
                #[trigger] t[i],
                #[trigger] t[j],
            ) by {
                assert(t[i] == s[i] && t[j] == s[j]);
            }
        }
        lemma_insert_sorted_in_order(t, x, after);
        lemma_insert_sorted_elements(t, x, after);
        lemma_insert_sorted_len(t, x, after);
        let u = insert_sorted(t, x, after);
        let r = u.push(l);
        assert forall|i: int, j: int| 0 <= i < j < r.len() implies !after(
            #[trigger] r[i],
            #[trigger] r[j],
        ) by {
            if j == u.len() {
                if u[i] == x {
                    assert(!after(x, l));
                } else {
                    let k = choose|k: int| 0 <= k < t.len() && t[k] == u[i];
                    assert(!after(s[k], s[s.len() - 1]));
                }
            } else {
                assert(r[i] == u[i] && r[j] == u[j]);
            }
        }
    }
}

/// A stable sort by a relation with the order properties is in order, and
/// holds the same elements as its input.
pub proof fn lemma_stable_sorted_in_order<A>(s: Seq<A>, after: spec_fn(A, A) -> bool)
    requires
        orders(after),
    ensures
        in_order(stable_sorted(s, after), after),
        stable_sorted(s, after).to_multiset() == s.to_multiset(),
    decreases s.len(),
{
    lemma_stable_sorted_permutes(s, after);
    if s.len() > 0 {
        lemma_stable_sorted_in_order(s.drop_last(), after);
        lemma_insert_sorted_in_order(stable_sorted(s.drop_last(), after), s.last(), after);
    }
}

} // verus!
