//! Per-actor totals for counter-typed replicas.
//!
//! A counter replica keeps one non-negative running total per contributing
//! actor, held as a vector of `(actor, total)` pairs with distinct actors.
//! `lookup` reads an actor's total (zero when absent) and `total` sums all of
//! them; the merge policy takes the pairwise maximum per actor.

use vstd::prelude::*;

verus! {

/// The total recorded for actor `k`, zero when `k` is absent.
pub open spec fn lookup(s: Seq<(String, i64)>, k: Seq<char>) -> int
    decreases s.len(),
{
    if s.len() == 0 {
        0
    } else if s.last().0@ == k {
        s.last().1 as int
    } else {
        lookup(s.drop_last(), k)
    }
}

/// Whether actor `k` has an entry.
pub open spec fn has_actor(s: Seq<(String, i64)>, k: Seq<char>) -> bool {
    exists|j: int| 0 <= j < s.len() && (#[trigger] s[j]).0@ == k
}

/// Every actor appears at most once.
pub open spec fn distinct_actors(s: Seq<(String, i64)>) -> bool {
    forall|j: int, k: int| 0 <= j < k < s.len() ==> (#[trigger] s[j]).0@ != (#[trigger] s[k]).0@
}

/// Every recorded total is non-negative.
pub open spec fn nonneg(s: Seq<(String, i64)>) -> bool {
    forall|j: int| 0 <= j < s.len() ==> (#[trigger] s[j]).1 >= 0
}

/// The sum of all recorded totals.
pub open spec fn total(s: Seq<(String, i64)>) -> int
    decreases s.len(),
{
    if s.len() == 0 {
        0
    } else {
        total(s.drop_last()) + s.last().1
    }
}

/// With distinct actors, `lookup` returns the entry's recorded total.
pub proof fn lemma_lookup_at(s: Seq<(String, i64)>, i: int)
    requires
        distinct_actors(s),
        0 <= i < s.len(),
    ensures
        lookup(s, s[i].0@) == s[i].1,
        has_actor(s, s[i].0@),
    decreases s.len(),
{
    if i < s.len() - 1 {
        assert(s.drop_last()[i] == s[i]);
        assert(distinct_actors(s.drop_last())) by {
            assert(forall|j: int, k: int|
                0 <= j < k < s.drop_last().len() ==> s.drop_last()[j] == s[j] && s.drop_last()[k]
                    == s[k]);
        }
        lemma_lookup_at(s.drop_last(), i);
    }
}

/// An absent actor reads as zero.
pub proof fn lemma_lookup_absent(s: Seq<(String, i64)>, k: Seq<char>)
    requires
        !has_actor(s, k),
    ensures
        lookup(s, k) == 0,
    decreases s.len(),
{
    if s.len() > 0 {
        assert(s[s.len() - 1].0@ != k);
        assert(!has_actor(s.drop_last(), k)) by {
            if has_actor(s.drop_last(), k) {
                let j = choose|j: int|
                    0 <= j < s.drop_last().len() && (#[trigger] s.drop_last()[j]).0@ == k;
                assert(s[j].0@ == k);
            }
        }
        lemma_lookup_absent(s.drop_last(), k);
    }
}

/// With non-negative totals, every lookup is non-negative.
pub proof fn lemma_lookup_nonneg(s: Seq<(String, i64)>, k: Seq<char>)
    requires
        nonneg(s),
    ensures
        lookup(s, k) >= 0,
    decreases s.len(),
{
    if s.len() > 0 {
        assert(nonneg(s.drop_last())) by {
            assert(forall|j: int| 0 <= j < s.drop_last().len() ==> s.drop_last()[j] == s[j]);
        }
        lemma_lookup_nonneg(s.drop_last(), k);
    }
}

/// Replacing one entry moves the sum by the difference of its totals.
pub proof fn lemma_total_update(s: Seq<(String, i64)>, i: int, x: (String, i64))
    requires
        0 <= i < s.len(),
    ensures
        total(s.update(i, x)) == total(s) - s[i].1 + x.1,
    decreases s.len(),
{
    let u = s.update(i, x);
    if i == s.len() - 1 {
        assert(u.drop_last() =~= s.drop_last());
        assert(u.last() == x);
    } else {
        assert(u.drop_last() =~= s.drop_last().update(i, x));
        assert(u.last() == s.last());
        lemma_total_update(s.drop_last(), i, x);
    }
}

/// Replacing one entry, same actor, rewrites that actor's lookup and keeps
/// every other actor's.
pub proof fn lemma_lookup_update(s: Seq<(String, i64)>, i: int, x: (String, i64), k: Seq<char>)
    requires
        distinct_actors(s),
        0 <= i < s.len(),
        x.0@ == s[i].0@,
    ensures
        lookup(s.update(i, x), k) == (if k == x.0@ {
            x.1 as int
        } else {
            lookup(s, k)
        }),
    decreases s.len(),
{
    let u = s.update(i, x);
    if i == s.len() - 1 {
        assert(u.drop_last() =~= s.drop_last());
        assert(u.last() == x);
        if k != x.0@ {
        } else {
        }
    } else {
        assert(u.drop_last() =~= s.drop_last().update(i, x));
        assert(u.last() == s.last());
        assert(distinct_actors(s.drop_last())) by {
            assert(forall|j: int, k2: int|
                0 <= j < k2 < s.drop_last().len() ==> s.drop_last()[j] == s[j] && s.drop_last()[k2]
                    == s[k2]);
        }
        assert(s.drop_last()[i] == s[i]);
        lemma_lookup_update(s.drop_last(), i, x, k);
        assert(s.last().0@ != s[i].0@);
    }
}

/// The sum of a prefix never exceeds the sum of the whole, totals being
/// non-negative.
pub proof fn lemma_total_take_le(s: Seq<(String, i64)>, i: int)
    requires
        nonneg(s),
        0 <= i <= s.len(),
    ensures
        total(s.take(i)) <= total(s),
        total(s.take(i)) >= 0,
    decreases s.len() - i,
{
    assert(nonneg(s.take(i))) by {
        assert(forall|j: int| 0 <= j < i ==> s.take(i)[j] == s[j]);
    }
    lemma_total_nonneg(s.take(i));
    if i == s.len() {
        assert(s.take(i) =~= s);
    } else {
        lemma_total_take_step_all(s, i);
        assert(s[i].1 >= 0);
        lemma_total_take_le(s, i + 1);
    }
}

/// A sum of non-negative totals is non-negative.
pub proof fn lemma_total_nonneg(s: Seq<(String, i64)>)
    requires
        nonneg(s),
    ensures
        total(s) >= 0,
    decreases s.len(),
{
    if s.len() > 0 {
        assert(nonneg(s.drop_last())) by {
            assert(forall|j: int| 0 <= j < s.drop_last().len() ==> s.drop_last()[j] == s[j]);
        }
        lemma_total_nonneg(s.drop_last());
    }
}

/// One more entry adds its total to the prefix sum.
pub proof fn lemma_total_take_step_all(s: Seq<(String, i64)>, i: int)
    requires
        0 <= i <= s.len(),
    ensures
        i < s.len() ==> total(s.take(i + 1)) == total(s.take(i)) + s[i].1,
{
    if i < s.len() {
        assert(s.take(i + 1).drop_last() =~= s.take(i));
        assert(s.take(i + 1).last() == s[i]);
    }
}

/// Dropping one entry lowers the sum by its total.
pub proof fn lemma_total_remove(s: Seq<(String, i64)>, i: int)
    requires
        0 <= i < s.len(),
    ensures
        total(s.remove(i)) == total(s) - s[i].1,
    decreases s.len(),
{
    let u = s.remove(i);
    if i == s.len() - 1 {
        assert(u =~= s.drop_last());
    } else {
        assert(u.drop_last() =~= s.drop_last().remove(i));
        assert(u.last() == s.last());
        lemma_total_remove(s.drop_last(), i);
    }
}

/// Dropping one entry zeroes its actor's lookup and keeps every other's.
pub proof fn lemma_lookup_remove(s: Seq<(String, i64)>, i: int, k: Seq<char>)
    requires
        distinct_actors(s),
        0 <= i < s.len(),
    ensures
        lookup(s.remove(i), k) == (if k == s[i].0@ {
            0
        } else {
            lookup(s, k)
        }),
    decreases s.len(),
{
    let u = s.remove(i);
    assert(distinct_actors(s.drop_last())) by {
        assert(forall|j: int, k2: int|
            0 <= j < k2 < s.drop_last().len() ==> s.drop_last()[j] == s[j] && s.drop_last()[k2]
                == s[k2]);
    }
    if i == s.len() - 1 {
        assert(u =~= s.drop_last());
        if k == s[i].0@ {
            assert(!has_actor(s.drop_last(), k)) by {
                if has_actor(s.drop_last(), k) {
                    let j = choose|j: int|
                        0 <= j < s.drop_last().len() && (#[trigger] s.drop_last()[j]).0@ == k;
                    assert(s[j].0@ == k);
                }
            }
            lemma_lookup_absent(s.drop_last(), k);
        }
    } else {
        assert(u.drop_last() =~= s.drop_last().remove(i));
        assert(u.last() == s.last());
        assert(s.drop_last()[i] == s[i]);
        lemma_lookup_remove(s.drop_last(), i, k);
        assert(s.last().0@ != s[i].0@);
    }
}

/// Distinct actors survive dropping one entry.
pub proof fn lemma_distinct_remove(s: Seq<(String, i64)>, i: int)
    requires
        distinct_actors(s),
        0 <= i < s.len(),
    ensures
        distinct_actors(s.remove(i)),
{
    let u = s.remove(i);
    assert forall|j: int, k: int| 0 <= j < k < u.len() implies (#[trigger] u[j]).0@ != (
    #[trigger] u[k]).0@ by {
        let j0: int = if j < i {
            j
        } else {
            j + 1
        };
        let k0: int = if k < i {
            k
        } else {
            k + 1
        };
        assert(u[j] == s[j0] && u[k] == s[k0]);
    }
}

/// Replicas that agree on every actor's total have the same sum: the read
/// value is a function of the per-actor totals alone, whatever order the
/// entries sit in and whether a zero total is recorded or merely absent.
pub proof fn lemma_total_by_lookup(a: Seq<(String, i64)>, b: Seq<(String, i64)>)
    requires
        distinct_actors(a),
        distinct_actors(b),
        forall|k: Seq<char>| lookup(a, k) == lookup(b, k),
    ensures
        total(a) == total(b),
    decreases a.len(),
{
    if a.len() == 0 {
        lemma_total_drain(b);
    } else {
        let key = a.last().0@;
        let v = a.last().1;
        lemma_lookup_at(a, a.len() - 1);
        assert(distinct_actors(a.drop_last())) by {
            assert(forall|j: int, k2: int|
                0 <= j < k2 < a.drop_last().len() ==> a.drop_last()[j] == a[j] && a.drop_last()[k2]
                    == a[k2]);
        }
        assert(!has_actor(a.drop_last(), key)) by {
            if has_actor(a.drop_last(), key) {
                let j = choose|j: int|
                    0 <= j < a.drop_last().len() && (#[trigger] a.drop_last()[j]).0@ == key;
                assert(a[j].0@ == key);
            }
        }
        lemma_lookup_absent(a.drop_last(), key);
        if has_actor(b, key) {
            let i = choose|i: int| 0 <= i < b.len() && (#[trigger] b[i]).0@ == key;
            lemma_lookup_at(b, i);
            lemma_total_remove(b, i);
            lemma_distinct_remove(b, i);
            assert forall|k: Seq<char>|
                lookup(a.drop_last(), k) == lookup(b.remove(i), k) by {
                lemma_lookup_remove(b, i, k);
                if k != key {
                    assert(lookup(a.drop_last(), k) == lookup(a, k));
                }
            }
            lemma_total_by_lookup(a.drop_last(), b.remove(i));
        } else {
            lemma_lookup_absent(b, key);
            assert(v == 0);
            assert forall|k: Seq<char>| lookup(a.drop_last(), k) == lookup(b, k) by {
                if k != key {
                    assert(lookup(a.drop_last(), k) == lookup(a, k));
                }
            }
            lemma_total_by_lookup(a.drop_last(), b);
        }
    }
}

/// A replica whose every lookup is zero sums to zero.
proof fn lemma_total_drain(b: Seq<(String, i64)>)
    requires
        distinct_actors(b),
        forall|k: Seq<char>| lookup(b, k) == 0,
    ensures
        total(b) == 0,
    decreases b.len(),
{
    if b.len() > 0 {
        lemma_lookup_at(b, b.len() - 1);
        assert(distinct_actors(b.drop_last())) by {
            assert(forall|j: int, k2: int|
                0 <= j < k2 < b.drop_last().len() ==> b.drop_last()[j] == b[j] && b.drop_last()[k2]
                    == b[k2]);
        }
        assert forall|k: Seq<char>| lookup(b.drop_last(), k) == 0 by {
            if k == b.last().0@ {
                assert(!has_actor(b.drop_last(), k)) by {
                    if has_actor(b.drop_last(), k) {
                        let j = choose|j: int|
                            0 <= j < b.drop_last().len() && (#[trigger] b.drop_last()[j]).0@ == k;
                        assert(b[j].0@ == k);
                    }
                }
                lemma_lookup_absent(b.drop_last(), k);
            } else {
                assert(lookup(b.drop_last(), k) == lookup(b, k));
            }
        }
        lemma_total_drain(b.drop_last());
    }
}

/// Two counter replicas that agree on every actor's increment and decrement
/// totals report the same read value; with
/// `lemma_counter_exchange_converges`, two replicas that have exchanged and
/// merged their full vectors therefore read the same number.
pub proof fn lemma_counter_read_converges(
    inc_a: Seq<(String, i64)>,
    dec_a: Seq<(String, i64)>,
    inc_b: Seq<(String, i64)>,
    dec_b: Seq<(String, i64)>,
)
    requires
        distinct_actors(inc_a),
        distinct_actors(dec_a),
        distinct_actors(inc_b),
        distinct_actors(dec_b),
        forall|k: Seq<char>| lookup(inc_a, k) == lookup(inc_b, k),
        forall|k: Seq<char>| lookup(dec_a, k) == lookup(dec_b, k),
    ensures
        total(inc_a) - total(dec_a) == total(inc_b) - total(dec_b),
{
    lemma_total_by_lookup(inc_a, inc_b);
    lemma_total_by_lookup(dec_a, dec_b);
}

/// The index of actor `k`, if an entry exists.
pub fn find_actor(v: &Vec<(String, i64)>, k: &String) -> (r: Option<usize>)
    ensures
        match r {
            Some(i) => i < v@.len() && v@[i as int].0@ == k@ && has_actor(v@, k@),
            None => !has_actor(v@, k@),
        },
{
    let mut i: usize = 0;
    while i < v.len()
        invariant
            0 <= i <= v@.len(),
            forall|j: int| 0 <= j < i ==> (#[trigger] v@[j]).0@ != k@,
        decreases v@.len() - i,
    {
        if v[i].0 == *k {
            return Some(i);
        }
        i = i + 1;
    }
    proof {
        if has_actor(v@, k@) {
            let j = choose|j: int| 0 <= j < v@.len() && (#[trigger] v@[j]).0@ == k@;
            assert(false);
        }
    }
    None
}

/// Adds `amount` to actor `k`'s total, creating the entry when absent.
pub fn bump(v: &mut Vec<(String, i64)>, k: &String, amount: i64)
    requires
        distinct_actors(old(v)@),
        nonneg(old(v)@),
        amount >= 0,
        lookup(old(v)@, k@) + amount <= i64::MAX,
    ensures
        distinct_actors(final(v)@),
        nonneg(final(v)@),
        forall|k2: Seq<char>|
            #[trigger] lookup(final(v)@, k2) == (if k2 == k@ {
                lookup(old(v)@, k@) + amount
            } else {
                lookup(old(v)@, k2)
            }),
        total(final(v)@) == total(old(v)@) + amount,
{
    match find_actor(v, k) {
        Some(i) => {
            proof {
                lemma_lookup_at(v@, i as int);
                lemma_lookup_nonneg(v@, k@);
            }
            let cur = v[i].1;
            let ghost pre = v@;
            v[i].1 = cur + amount;
            proof {
                let x = (pre[i as int].0, (cur + amount) as i64);
                assert(v@ =~= pre.update(i as int, x));
                lemma_total_update(pre, i as int, x);
                assert forall|k2: Seq<char>| #[trigger]
                    lookup(v@, k2) == (if k2 == k@ {
                        lookup(pre, k@) + amount
                    } else {
                        lookup(pre, k2)
                    }) by {
                    lemma_lookup_update(pre, i as int, x, k2);
                }
                assert(distinct_actors(v@)) by {
                    assert(forall|j: int|
                        0 <= j < v@.len() ==> (#[trigger] v@[j]).0 == pre[j].0);
                }
                assert(nonneg(v@)) by {
                    assert(forall|j: int|
                        0 <= j < v@.len() && j != i ==> (#[trigger] v@[j]).1 == pre[j].1);
                }
            }
        },
        None => {
            proof {
                lemma_lookup_absent(v@, k@);
            }
            let ghost pre = v@;
            v.push((k.clone(), amount));
            proof {
                assert(v@.drop_last() =~= pre);
                assert(v@.last() == (v@[v@.len() - 1].0, amount));
                assert(v@.last().0@ == k@);
                assert forall|k2: Seq<char>| #[trigger]
                    lookup(v@, k2) == (if k2 == k@ {
                        lookup(pre, k@) + amount
                    } else {
                        lookup(pre, k2)
                    }) by {}
                assert(distinct_actors(v@)) by {
                    assert(forall|j: int| 0 <= j < pre.len() ==> v@[j] == pre[j]);
                    assert forall|j: int, k2: int| 0 <= j < k2 < v@.len() implies (
                    #[trigger] v@[j]).0@ != (#[trigger] v@[k2]).0@ by {
                        if k2 == v@.len() - 1 {
                            assert(v@[j] == pre[j]);
                            if v@[j].0@ == k@ {
                                assert(has_actor(pre, k@));
                            }
                        }
                    }
                }
                assert(nonneg(v@)) by {
                    assert(forall|j: int| 0 <= j < pre.len() ==> v@[j] == pre[j]);
                }
            }
        },
    }
}

/// Folds an incoming per-actor vector into the local one by pairwise
/// maximum: the counter merge policy.
pub fn merge_max(v: &mut Vec<(String, i64)>, incoming: &Vec<(String, i64)>)
    requires
        distinct_actors(old(v)@),
        nonneg(old(v)@),
        distinct_actors(incoming@),
        nonneg(incoming@),
    ensures
        distinct_actors(final(v)@),
        nonneg(final(v)@),
        forall|k: Seq<char>|
            #[trigger] lookup(final(v)@, k) == vstd::math::max(
                lookup(old(v)@, k),
                lookup(incoming@, k),
            ),
{
    let ghost orig = v@;
    let mut j: usize = 0;
    while j < incoming.len()
        invariant
            0 <= j <= incoming@.len(),
            distinct_actors(v@),
            nonneg(v@),
            distinct_actors(incoming@),
            nonneg(incoming@),
            nonneg(orig),
            forall|k: Seq<char>|
                #[trigger] lookup(v@, k) == (if has_actor(incoming@.take(j as int), k) {
                    vstd::math::max(lookup(orig, k), lookup(incoming@, k))
                } else {
                    lookup(orig, k)
                }),
        decreases incoming@.len() - j,
    {
        let ghost pre = v@;
        let ghost kj = incoming@[j as int].0@;
        proof {
            lemma_lookup_at(incoming@, j as int);
            assert(!has_actor(incoming@.take(j as int), kj)) by {
                if has_actor(incoming@.take(j as int), kj) {
                    let i2 = choose|i2: int|
                        0 <= i2 < j && (#[trigger] incoming@.take(j as int)[i2]).0@ == kj;
                    assert(incoming@[i2].0@ == kj);
                }
            }
        }
        proof {
            lemma_lookup_nonneg(orig, kj);
            assert(incoming@[j as int].1 >= 0);
        }
        let val = incoming[j].1;
        match find_actor(v, &incoming[j].0) {
            Some(i) => {
                proof {
                    lemma_lookup_at(pre, i as int);
                    assert(lookup(pre, kj) == lookup(orig, kj));
                }
                if v[i].1 < val {
                    v[i].1 = val;
                    proof {
                        let x = (pre[i as int].0, val);
                        assert(v@ =~= pre.update(i as int, x));
                        assert forall|k: Seq<char>| #[trigger]
                            lookup(v@, k) == (if k == kj {
                                val as int
                            } else {
                                lookup(pre, k)
                            }) by {
                            lemma_lookup_update(pre, i as int, x, k);
                        }
                        assert(distinct_actors(v@)) by {
                            assert(forall|j2: int|
                                0 <= j2 < v@.len() ==> (#[trigger] v@[j2]).0 == pre[j2].0);
                        }
                        assert(nonneg(v@)) by {
                            assert(forall|j2: int|
                                0 <= j2 < v@.len() && j2 != i ==> (#[trigger] v@[j2]).1
                                    == pre[j2].1);
                        }
                    }
                }
            },
            None => {
                v.push((incoming[j].0.clone(), val));
                proof {
                    lemma_lookup_absent(pre, kj);
                    assert(lookup(pre, kj) == lookup(orig, kj));
                    assert(v@.drop_last() =~= pre);
                    assert(v@.last().0@ == kj && v@.last().1 == val);
                    assert forall|k: Seq<char>| #[trigger]
                        lookup(v@, k) == (if k == kj {
                            val as int
                        } else {
                            lookup(pre, k)
                        }) by {}
                    assert(distinct_actors(v@)) by {
                        assert(forall|j2: int| 0 <= j2 < pre.len() ==> v@[j2] == pre[j2]);
                        assert forall|j2: int, k2: int| 0 <= j2 < k2 < v@.len() implies (
                        #[trigger] v@[j2]).0@ != (#[trigger] v@[k2]).0@ by {
                            if k2 == v@.len() - 1 {
                                if v@[j2].0@ == kj {
                                    assert(pre[j2].0@ == kj);
                                    assert(has_actor(pre, kj));
                                }
                            }
                        }
                    }
                    assert(nonneg(v@)) by {
                        assert(forall|j2: int| 0 <= j2 < pre.len() ==> v@[j2] == pre[j2]);
                    }
                }
            },
        }
        proof {
            let taken = incoming@.take(j + 1 as int);
            assert(taken.drop_last() =~= incoming@.take(j as int));
            assert(taken.last() == incoming@[j as int]);
            assert(lookup(v@, kj) == vstd::math::max(lookup(orig, kj), lookup(incoming@, kj)));
            assert forall|k: Seq<char>| #[trigger]
                lookup(v@, k) == (if has_actor(taken, k) {
                    vstd::math::max(lookup(orig, k), lookup(incoming@, k))
                } else {
                    lookup(orig, k)
                }) by {
                if k == kj {
                    assert(has_actor(taken, k)) by {
                        assert(taken[taken.len() - 1].0@ == kj);
                    }
                } else {
                    assert(lookup(v@, k) == lookup(pre, k));
                    assert(has_actor(taken, k) == has_actor(incoming@.take(j as int), k)) by {
                        if has_actor(taken, k) {
                            let i2 = choose|i2: int|
                                0 <= i2 < taken.len() && (#[trigger] taken[i2]).0@ == k;
                            assert(i2 < j);
                            assert(incoming@.take(j as int)[i2].0@ == k);
                        }
                        if has_actor(incoming@.take(j as int), k) {
                            let i2 = choose|i2: int|
                                0 <= i2 < j && (#[trigger] incoming@.take(j as int)[i2]).0@ == k;
                            assert(taken[i2].0@ == k);
                        }
                    }
                }
            }
        }
        j = j + 1;
    }
    proof {
        assert(incoming@.take(incoming@.len() as int) =~= incoming@);
        assert forall|k: Seq<char>| #[trigger]
            lookup(final(v)@, k) == vstd::math::max(lookup(orig, k), lookup(incoming@, k)) by {
            if !has_actor(incoming@, k) {
                lemma_lookup_absent(incoming@, k);
                lemma_lookup_nonneg(orig, k);
            }
        }
    }
}

/// The sum of all recorded totals; the counter's read value is the
/// increments' sum minus the decrements' sum.
pub fn sum_values(v: &Vec<(String, i64)>) -> (r: i64)
    requires
        nonneg(v@),
        total(v@) <= i64::MAX,
    ensures
        r == total(v@),
{
    let mut acc: i64 = 0;
    let mut i: usize = 0;
    proof {
        assert(v@.take(0) =~= Seq::<(String, i64)>::empty());
    }
    while i < v.len()
        invariant
            0 <= i <= v@.len(),
            nonneg(v@),
            total(v@) <= i64::MAX,
            acc == total(v@.take(i as int)),
            0 <= acc,
        decreases v@.len() - i,
    {
        proof {
            lemma_total_take_step_all(v@, i as int);
            lemma_total_take_le(v@, i + 1 as int);
        }
        acc = acc + v[i].1;
        i = i + 1;
    }
    proof {
        assert(v@.take(v@.len() as int) =~= v@);
    }
    acc
}

/// A fresh vector with the same entries: the full per-actor vector a
/// counter gossip carries.
pub fn copy_counts(v: &Vec<(String, i64)>) -> (r: Vec<(String, i64)>)
    ensures
        r@ == v@,
{
    let mut r: Vec<(String, i64)> = Vec::new();
    let mut i: usize = 0;
    while i < v.len()
        invariant
            0 <= i <= v@.len(),
            r@ == v@.take(i as int),
        decreases v@.len() - i,
    {
        let key = v[i].0.clone();
        let val = v[i].1;
        r.push((key, val));
        proof {
            assert(v@.take(i + 1 as int) =~= v@.take(i as int).push(v@[i as int]));
        }
        i = i + 1;
    }
    proof {
        assert(v@.take(v@.len() as int) =~= v@);
    }
    r
}

/// Merging the same incoming vector twice leaves every actor's total as the
/// first merge set it: the pairwise maximum is idempotent.
pub proof fn lemma_counter_merge_idempotent(
    state: Seq<(String, i64)>,
    delta: Seq<(String, i64)>,
    k: Seq<char>,
)
    ensures
        vstd::math::max(
            vstd::math::max(lookup(state, k), lookup(delta, k)),
            lookup(delta, k),
        ) == vstd::math::max(lookup(state, k), lookup(delta, k)),
{
}

/// Merging vector `a` then vector `b` gives every actor the same total as
/// merging `b` then `a`: the pairwise maximum is commutative.
pub proof fn lemma_counter_merge_commutative(
    state: Seq<(String, i64)>,
    a: Seq<(String, i64)>,
    b: Seq<(String, i64)>,
    k: Seq<char>,
)
    ensures
        vstd::math::max(
            vstd::math::max(lookup(state, k), lookup(a, k)),
            lookup(b, k),
        ) == vstd::math::max(vstd::math::max(lookup(state, k), lookup(b, k)), lookup(a, k)),
{
}

/// The largest total any of a sequence of gossiped vectors records for `k`.
pub open spec fn max_all(ds: Seq<Seq<(String, i64)>>, k: Seq<char>) -> int
    decreases ds.len(),
{
    if ds.len() == 0 {
        0
    } else {
        vstd::math::max(lookup(ds[0], k), max_all(ds.skip(1), k))
    }
}

/// A replica's total for `k` after folding in a sequence of gossiped
/// vectors by pairwise maximum, oldest first.
pub open spec fn fold_max(base: int, ds: Seq<Seq<(String, i64)>>, k: Seq<char>) -> int
    decreases ds.len(),
{
    if ds.len() == 0 {
        base
    } else {
        fold_max(vstd::math::max(base, lookup(ds[0], k)), ds.skip(1), k)
    }
}

/// Folding in a sequence of gossiped vectors leaves an actor's total at the
/// maximum of the initial total and everything any vector recorded.
pub proof fn lemma_fold_max_is_max(base: int, ds: Seq<Seq<(String, i64)>>, k: Seq<char>)
    requires
        base >= 0,
    ensures
        fold_max(base, ds, k) == vstd::math::max(base, max_all(ds, k)),
    decreases ds.len(),
{
    if ds.len() > 0 {
        lemma_fold_max_is_max(vstd::math::max(base, lookup(ds[0], k)), ds.skip(1), k);
    }
}

/// The maximum over a sequence of vectors is non-negative, dominates each
/// vector's total, and is zero or attained by some vector.
pub proof fn lemma_max_all_bounds(ds: Seq<Seq<(String, i64)>>, k: Seq<char>)
    ensures
        max_all(ds, k) >= 0,
        forall|i: int| 0 <= i < ds.len() ==> max_all(ds, k) >= lookup(#[trigger] ds[i], k),
        max_all(ds, k) == 0 || exists|i: int|
            0 <= i < ds.len() && max_all(ds, k) == lookup(#[trigger] ds[i], k),
    decreases ds.len(),
{
    if ds.len() > 0 {
        lemma_max_all_bounds(ds.skip(1), k);
        assert forall|i: int| 0 <= i < ds.len() implies max_all(ds, k) >= lookup(
            #[trigger] ds[i],
            k,
        ) by {
            if i > 0 {
                assert(ds.skip(1)[i - 1] == ds[i]);
                assert(max_all(ds.skip(1), k) >= lookup(ds.skip(1)[i - 1], k));
            }
        }
        if max_all(ds, k) != 0 {
            if max_all(ds, k) == lookup(ds[0], k) {
                assert(max_all(ds, k) == lookup(ds[0int], k));
            } else {
                let i = choose|i: int|
                    0 <= i < ds.skip(1).len() && max_all(ds.skip(1), k) == lookup(
                        #[trigger] ds.skip(1)[i],
                        k,
                    );
                assert(ds.skip(1)[i] == ds[i + 1]);
                assert(max_all(ds, k) == lookup(ds[i + 1], k));
            }
        }
    }
}

/// Convergence of the counter policy: two delivery schedules carrying the
/// same gossiped vectors — in any order, duplicated or not — leave an
/// actor's total the same, so nodes that have received everything agree.
pub proof fn lemma_counter_delivery_order_irrelevant(
    base: int,
    ds1: Seq<Seq<(String, i64)>>,
    ds2: Seq<Seq<(String, i64)>>,
    k: Seq<char>,
)
    requires
        base >= 0,
        forall|d: Seq<(String, i64)>| ds1.contains(d) <==> ds2.contains(d),
    ensures
        fold_max(base, ds1, k) == fold_max(base, ds2, k),
{
    lemma_fold_max_is_max(base, ds1, k);
    lemma_fold_max_is_max(base, ds2, k);
    lemma_max_all_bounds(ds1, k);
    lemma_max_all_bounds(ds2, k);
    assert(max_all(ds1, k) <= max_all(ds2, k)) by {
        if max_all(ds1, k) != 0 {
            let i = choose|i: int|
                0 <= i < ds1.len() && max_all(ds1, k) == lookup(#[trigger] ds1[i], k);
            assert(ds1.contains(ds1[i]));
            let j = choose|j: int| 0 <= j < ds2.len() && ds2[j] == ds1[i];
            assert(max_all(ds2, k) >= lookup(ds2[j], k));
        }
    }
    assert(max_all(ds2, k) <= max_all(ds1, k)) by {
        if max_all(ds2, k) != 0 {
            let i = choose|i: int|
                0 <= i < ds2.len() && max_all(ds2, k) == lookup(#[trigger] ds2[i], k);
            assert(ds2.contains(ds2[i]));
            let j = choose|j: int| 0 <= j < ds1.len() && ds1[j] == ds2[i];
            assert(max_all(ds1, k) >= lookup(ds1[j], k));
        }
    }
}

/// Two counter replicas that have each folded in the other's full vector
/// agree on every actor's total.
pub proof fn lemma_counter_exchange_converges(
    a: Seq<(String, i64)>,
    b: Seq<(String, i64)>,
    k: Seq<char>,
)
    ensures
        vstd::math::max(lookup(a, k), lookup(b, k)) == vstd::math::max(
            lookup(b, k),
            lookup(a, k),
        ),
{
}

} // verus!
