//! Element collections for set-typed replicas.
//!
//! A replica's element set and the per-peer record of verified elements are
//! kept as vectors of `usize` values; what matters about them is membership,
//! stated through `Seq::to_set`. `delta_of` is the set-union merge policy's
//! difference operator: the elements of `values` not yet known to a peer,
//! in order, duplicates kept.

use vstd::prelude::*;

verus! {

/// The delta the set-union policy sends: every element of `values` that is
/// not in `known`, in the order it appears in `values`.
pub open spec fn delta_of(values: Seq<usize>, known: Seq<usize>) -> Seq<usize>
    decreases values.len(),
{
    if values.len() == 0 {
        Seq::empty()
    } else if known.contains(values.last()) {
        delta_of(values.drop_last(), known)
    } else {
        delta_of(values.drop_last(), known).push(values.last())
    }
}

/// Every element of a delta came from `values` and was missing from `known`.
pub proof fn lemma_delta_of_membership(values: Seq<usize>, known: Seq<usize>)
    ensures
        forall|e: usize|
            delta_of(values, known).contains(e) <==> values.contains(e) && !known.contains(e),
    decreases values.len(),
{
    if values.len() > 0 {
        lemma_delta_of_membership(values.drop_last(), known);
        assert forall|e: usize| values.contains(e) && !known.contains(e) implies delta_of(
            values,
            known,
        ).contains(e) by {
            let d0 = delta_of(values.drop_last(), known);
            if e == values.last() {
                assert(delta_of(values, known) == d0.push(e));
                assert(d0.push(e)[d0.len() as int] == e);
            } else {
                let i = choose|i: int| 0 <= i < values.len() && values[i] == e;
                assert(values.drop_last()[i] == e);
                assert(values.drop_last().contains(e));
                let j = choose|j: int| 0 <= j < d0.len() && d0[j] == e;
                if !known.contains(values.last()) {
                    assert(d0.push(values.last())[j] == e);
                }
            }
        }
        assert forall|e: usize| delta_of(values, known).contains(e) implies values.contains(e)
            && !known.contains(e) by {
            if values.drop_last().contains(e) {
                let i = choose|i: int| 0 <= i < values.drop_last().len() && values.drop_last()[i]
                    == e;
                assert(values[i] == e);
            } else {
                if delta_of(values, known) =~= delta_of(values.drop_last(), known).push(
                    values.last(),
                ) {
                    if e != values.last() {
                        let d = delta_of(values.drop_last(), known);
                        let j = choose|j: int| 0 <= j < d.push(values.last()).len() && d.push(
                            values.last(),
                        )[j] == e;
                        assert(d[j] == e);
                        assert(d.contains(e));
                    } else {
                        assert(values.contains(e)) by {
                            assert(values.last() == e);
                        }
                    }
                }
            }
        }
    }
}

/// A delta computed against a peer that already knows every element is empty.
pub proof fn lemma_delta_of_known_empty(values: Seq<usize>, known: Seq<usize>)
    requires
        forall|e: usize| values.contains(e) ==> known.contains(e),
    ensures
        delta_of(values, known) =~= Seq::<usize>::empty(),
    decreases values.len(),
{
    if values.len() > 0 {
        assert(values.contains(values.last()));
        assert forall|e: usize| values.drop_last().contains(e) implies known.contains(e) by {
            let i = choose|i: int| 0 <= i < values.drop_last().len() && values.drop_last()[i] == e;
            assert(values[i] == e);
        }
        lemma_delta_of_known_empty(values.drop_last(), known);
    }
}

/// Whether `v` holds `x`.
pub fn contains_value(v: &Vec<usize>, x: usize) -> (r: bool)
    ensures
        r == v@.contains(x),
{
    let mut i: usize = 0;
    while i < v.len()
        invariant
            0 <= i <= v@.len(),
            forall|j: int| 0 <= j < i ==> v@[j] != x,
        decreases v@.len() - i,
    {
        if v[i] == x {
            return true;
        }
        i = i + 1;
    }
    false
}

/// A fresh vector with the same elements as `v`.
pub fn copy_values(v: &Vec<usize>) -> (r: Vec<usize>)
    ensures
        r@ == v@,
{
    let mut r: Vec<usize> = Vec::new();
    let mut i: usize = 0;
    while i < v.len()
        invariant
            0 <= i <= v@.len(),
            r@ == v@.take(i as int),
        decreases v@.len() - i,
    {
        r.push(v[i]);
        assert(v@.take(i + 1 as int) =~= v@.take(i as int).push(v@[i as int]));
        i = i + 1;
    }
    assert(v@.take(v@.len() as int) =~= v@);
    r
}

/// The elements of `values` that are missing from `known`, in order.
pub fn filter_unknown(values: &Vec<usize>, known: &Vec<usize>) -> (r: Vec<usize>)
    ensures
        r@ == delta_of(values@, known@),
{
    let mut r: Vec<usize> = Vec::new();
    let mut i: usize = 0;
    while i < values.len()
        invariant
            0 <= i <= values@.len(),
            r@ == delta_of(values@.take(i as int), known@),
        decreases values@.len() - i,
    {
        let ghost taken = values@.take(i + 1 as int);
        assert(taken.drop_last() =~= values@.take(i as int));
        assert(taken.last() == values@[i as int]);
        if !contains_value(known, values[i]) {
            r.push(values[i]);
        }
        i = i + 1;
    }
    assert(values@.take(values@.len() as int) =~= values@);
    r
}

/// Folds `delta` into `state` by set union: appends each element of `delta`
/// that `state` does not already hold. The result holds exactly the union of
/// the two element sets; a state without duplicates stays without them, and a
/// delta the state already covers leaves it untouched.
pub fn merge_into(state: &mut Vec<usize>, delta: &Vec<usize>)
    ensures
        final(state)@.to_set() == old(state)@.to_set().union(delta@.to_set()),
        final(state)@.take(old(state)@.len() as int) == old(state)@,
        (forall|j: int, k: int|
            0 <= j < k < old(state)@.len() ==> old(state)@[j] != old(state)@[k]) ==> (forall|
            j: int,
            k: int,
        |
            0 <= j < k < final(state)@.len() ==> final(state)@[j] != final(state)@[k]),
        (forall|e: usize| delta@.contains(e) ==> old(state)@.contains(e)) ==> final(state)@ == old(
            state,
        )@,
{
    let ghost orig = state@;
    let mut i: usize = 0;
    while i < delta.len()
        invariant
            0 <= i <= delta@.len(),
            state@.take(orig.len() as int) == orig,
            orig.len() <= state@.len(),
            forall|e: usize| #[trigger]
                state@.contains(e) <==> orig.contains(e) || delta@.take(i as int).contains(e),
            forall|j: int|
                orig.len() <= j < state@.len() ==> delta@.contains(#[trigger] state@[j])
                    && !orig.contains(state@[j]),
            (forall|j: int, k: int| 0 <= j < k < orig.len() ==> orig[j] != orig[k]) ==> (forall|
                j: int,
                k: int,
            | 0 <= j < k < state@.len() ==> state@[j] != state@[k]),
            (forall|e: usize| delta@.contains(e) ==> orig.contains(e)) ==> state@ == orig,
        decreases delta@.len() - i,
    {
        let ghost pre = state@;
        let x = delta[i];
        assert(delta@.contains(x));
        if !contains_value(state, x) {
            state.push(x);
            assert(state@.take(orig.len() as int) =~= pre.take(orig.len() as int));
            assert forall|e: usize| #[trigger] state@.contains(e) implies orig.contains(e)
                || delta@.take(i + 1 as int).contains(e) by {
                if e != x {
                    let j = choose|j: int| 0 <= j < state@.len() && state@[j] == e;
                    assert(pre[j] == e);
                    assert(pre.contains(e));
                    if delta@.take(i as int).contains(e) {
                        let k = choose|k: int| 0 <= k < i && delta@.take(i as int)[k] == e;
                        assert(delta@.take(i + 1 as int)[k] == e);
                    }
                } else {
                    assert(delta@.take(i + 1 as int)[i as int] == x);
                }
            }
            assert forall|e: usize| orig.contains(e) || delta@.take(i + 1 as int).contains(
                e,
            ) implies #[trigger] state@.contains(e) by {
                if orig.contains(e) || delta@.take(i as int).contains(e) {
                    assert(pre.contains(e));
                    let j = choose|j: int| 0 <= j < pre.len() && pre[j] == e;
                    assert(state@[j] == e);
                } else {
                    let k = choose|k: int|
                        0 <= k < i + 1 && #[trigger] delta@.take(i + 1 as int)[k] == e;
                    assert(delta@.take(i + 1 as int)[k] == delta@[k]);
                    if k < i {
                        assert(delta@.take(i as int)[k] == e);
                        assert(false);
                    }
                    assert(e == x);
                    assert(state@.last() == x);
                }
            }
        } else {
            assert forall|e: usize| #[trigger]
                state@.contains(e) <==> orig.contains(e) || delta@.take(i + 1 as int).contains(
                    e,
                ) by {
                if delta@.take(i + 1 as int).contains(e) && !delta@.take(i as int).contains(e) {
                    let k = choose|k: int|
                        0 <= k < i + 1 && #[trigger] delta@.take(i + 1 as int)[k] == e;
                    if k < i {
                        assert(delta@.take(i as int)[k] == e);
                    }
                    assert(e == x);
                }
                if delta@.take(i as int).contains(e) {
                    let k = choose|k: int| 0 <= k < i && delta@.take(i as int)[k] == e;
                    assert(delta@.take(i + 1 as int)[k] == e);
                }
            }
        }
        i = i + 1;
    }
    assert(delta@.take(delta@.len() as int) =~= delta@);
    assert(final(state)@.to_set() =~= old(state)@.to_set().union(delta@.to_set()));
}

/// Merging the same delta into a set-typed replica twice leaves the state
/// the first merge produced: set union is idempotent.
pub proof fn lemma_set_merge_idempotent(state: Set<usize>, delta: Set<usize>)
    ensures
        state.union(delta).union(delta) == state.union(delta),
{
    assert(state.union(delta).union(delta) =~= state.union(delta));
}

/// Merging delta `a` and then delta `b` into a set-typed replica yields the
/// same state as merging `b` and then `a`: set union is commutative.
pub proof fn lemma_set_merge_commutative(state: Set<usize>, a: Set<usize>, b: Set<usize>)
    ensures
        state.union(a).union(b) == state.union(b).union(a),
{
    assert(state.union(a).union(b) =~= state.union(b).union(a));
}

/// Two set-typed replicas that have each folded in the other's full state
/// hold the same elements: after a bidirectional exchange the reads agree.
pub proof fn lemma_set_exchange_converges(a: Set<usize>, b: Set<usize>)
    ensures
        a.union(b) == b.union(a),
{
    assert(a.union(b) =~= b.union(a));
}

/// Every element carried by any of a sequence of deltas.
pub open spec fn union_all(ds: Seq<Set<usize>>) -> Set<usize>
    decreases ds.len(),
{
    if ds.len() == 0 {
        Set::empty()
    } else {
        ds[0].union(union_all(ds.skip(1)))
    }
}

/// A replica's state after folding in a sequence of deltas, oldest first.
pub open spec fn fold_merge(s: Set<usize>, ds: Seq<Set<usize>>) -> Set<usize>
    decreases ds.len(),
{
    if ds.len() == 0 {
        s
    } else {
        fold_merge(s.union(ds[0]), ds.skip(1))
    }
}

/// Folding in a sequence of deltas yields the initial state joined with
/// everything any delta carried.
pub proof fn lemma_fold_merge_is_union(s: Set<usize>, ds: Seq<Set<usize>>)
    ensures
        fold_merge(s, ds) == s.union(union_all(ds)),
    decreases ds.len(),
{
    if ds.len() == 0 {
        assert(s.union(Set::empty()) =~= s);
    } else {
        lemma_fold_merge_is_union(s.union(ds[0]), ds.skip(1));
        assert(s.union(ds[0]).union(union_all(ds.skip(1))) =~= s.union(
            ds[0].union(union_all(ds.skip(1))),
        ));
    }
}

/// An element reached some delta's recipient exactly when some delta
/// carried it.
pub proof fn lemma_union_all_membership(ds: Seq<Set<usize>>)
    ensures
        forall|e: usize|
            union_all(ds).contains(e) <==> exists|i: int|
                0 <= i < ds.len() && (#[trigger] ds[i]).contains(e),
    decreases ds.len(),
{
    if ds.len() > 0 {
        lemma_union_all_membership(ds.skip(1));
        assert forall|e: usize| union_all(ds).contains(e) implies exists|i: int|
            0 <= i < ds.len() && (#[trigger] ds[i]).contains(e) by {
            if ds[0].contains(e) {
                assert(ds[0int].contains(e));
            } else {
                assert(union_all(ds) == ds[0].union(union_all(ds.skip(1))));
                assert(union_all(ds.skip(1)).contains(e));
                let i = choose|i: int|
                    0 <= i < ds.skip(1).len() && (#[trigger] ds.skip(1)[i]).contains(e);
                assert(ds.skip(1)[i] == ds[i + 1]);
                assert(ds[i + 1].contains(e));
            }
        }
        assert forall|e: usize|
            exists|i: int| 0 <= i < ds.len() && (#[trigger] ds[i]).contains(e) implies union_all(
            ds,
        ).contains(e) by {
            let i = choose|i: int| 0 <= i < ds.len() && (#[trigger] ds[i]).contains(e);
            assert(union_all(ds) == ds[0].union(union_all(ds.skip(1))));
            if i > 0 {
                assert(ds.skip(1)[i - 1] == ds[i]);
                assert(ds.skip(1)[i - 1].contains(e));
                assert(union_all(ds.skip(1)).contains(e));
            }
        }
    }
}

/// Convergence of the set-union policy: two delivery schedules carrying the
/// same deltas — in any order, duplicated or not — leave a replica in the
/// same state, so nodes that have received everything read the same set.
pub proof fn lemma_set_delivery_order_irrelevant(
    s: Set<usize>,
    ds1: Seq<Set<usize>>,
    ds2: Seq<Set<usize>>,
)
    requires
        forall|d: Set<usize>| ds1.contains(d) <==> ds2.contains(d),
    ensures
        fold_merge(s, ds1) == fold_merge(s, ds2),
{
    lemma_fold_merge_is_union(s, ds1);
    lemma_fold_merge_is_union(s, ds2);
    lemma_union_all_membership(ds1);
    lemma_union_all_membership(ds2);
    assert(union_all(ds1) =~= union_all(ds2)) by {
        assert forall|e: usize| union_all(ds1).contains(e) implies union_all(ds2).contains(e) by {
            let i = choose|i: int| 0 <= i < ds1.len() && (#[trigger] ds1[i]).contains(e);
            assert(ds1.contains(ds1[i]));
            let j = choose|j: int| 0 <= j < ds2.len() && ds2[j] == ds1[i];
            assert(ds2[j].contains(e));
        }
        assert forall|e: usize| union_all(ds2).contains(e) implies union_all(ds1).contains(e) by {
            let i = choose|i: int| 0 <= i < ds2.len() && (#[trigger] ds2[i]).contains(e);
            assert(ds2.contains(ds2[i]));
            let j = choose|j: int| 0 <= j < ds1.len() && ds1[j] == ds2[i];
            assert(ds1[j].contains(e));
        }
    }
}

} // verus!
