//! Occurrence counts of keys, one entry per key that occurs.
use vstd::prelude::*;

use crate::types::asset::Asset;
use crate::types::timeframe::Timeframe;

verus! {

/// A key that can be compared by value.
pub trait CountKey: Copy {
    fn same_key(&self, other: &Self) -> (r: bool)
        ensures
            r == (*self == *other),
    ;
}

impl CountKey for Timeframe {
    fn same_key(&self, other: &Self) -> (r: bool) {
        *self == *other
    }
}

impl CountKey for Asset {
    fn same_key(&self, other: &Self) -> (r: bool) {
        *self == *other
    }
}

/// An asset with a timeframe.
#[derive(Debug, Clone, Copy, PartialEq, Eq, Hash, Structural)]
pub struct AssetTimeframe {
    pub asset: Asset,
    pub timeframe: Timeframe,
}

/// A short and a long timeframe.
#[derive(Debug, Clone, Copy, PartialEq, Eq, Hash, Structural)]
pub struct TimeframePair {
    pub short: Timeframe,
    pub long: Timeframe,
}

impl CountKey for AssetTimeframe {
    fn same_key(&self, other: &Self) -> (r: bool) {
        *self == *other
    }
}

impl CountKey for TimeframePair {
    fn same_key(&self, other: &Self) -> (r: bool) {
        *self == *other
    }
}

/// Equal to `k`.
pub open spec fn is_key<K>(k: K) -> spec_fn(K) -> bool {
    |x: K| x == k
}

/// How many times `k` occurs in `keys`.
pub open spec fn occurrences<K>(keys: Seq<K>, k: K) -> nat {
    keys.filter(is_key(k)).len()
}

/// Some entry is for `k`.
pub open spec fn has_entry<K>(entries: Seq<(K, usize)>, k: K) -> bool {
    exists|i: int| 0 <= i < entries.len() && #[trigger] entries[i].0 == k
}

/// The place of the first entry for `k`.
pub open spec fn first_entry<K>(entries: Seq<(K, usize)>, k: K) -> int {
    choose|i: int|
        0 <= i < entries.len() && entries[i].0 == k && forall|j: int| 0 <= j < i ==> #[trigger] entries[j].0 != k
}

/// The count of the first entry for `k`, or zero without one.
pub open spec fn count_in<K>(entries: Seq<(K, usize)>, k: K) -> nat {
    if has_entry(entries, k) {
        entries[first_entry(entries, k)].1 as nat
    } else {
        0
    }
}

proof fn lemma_first_entry<K>(entries: Seq<(K, usize)>, k: K, i: int)
    requires
        0 <= i < entries.len(),
        entries[i].0 == k,
        forall|j: int| 0 <= j < i ==> #[trigger] entries[j].0 != k,
    ensures
        first_entry(entries, k) == i,
        has_entry(entries, k),
{
    let c = first_entry(entries, k);
    assert(entries[i].0 == k);
    if c < i {
        assert(entries[c].0 != k);
    } else if c > i {
        assert(entries[i].0 != k);
    }
}

/// `entries` counts `keys`: one entry per key that occurs, with its number of
/// occurrences.
pub open spec fn counts_of<K>(entries: Seq<(K, usize)>, keys: Seq<K>) -> bool {
    &&& forall|i: int, j: int| 0 <= i < j < entries.len() ==> entries[i].0 != entries[j].0
    &&& forall|i: int| 0 <= i < entries.len() ==> #[trigger] entries[i].1 == occurrences(keys, entries[i].0)
    &&& forall|k: K| #[trigger] has_entry(entries, k) <==> occurrences(keys, k) > 0
}

/// The sum of the counts.
pub open spec fn count_total<K>(entries: Seq<(K, usize)>) -> nat
    decreases entries.len(),
{
    if entries.len() == 0 {
        0
    } else {
        count_total(entries.drop_last()) + entries.last().1 as nat
    }
}

proof fn lemma_count_total_update<K>(entries: Seq<(K, usize)>, j: int, e: (K, usize))
    requires
        0 <= j < entries.len(),
    ensures
        count_total(entries.update(j, e)) == count_total(entries) - entries[j].1 + e.1,
    decreases entries.len(),
{
    let u = entries.update(j, e);
    if j == entries.len() - 1 {
        assert(u.drop_last() =~= entries.drop_last());
    } else {
        lemma_count_total_update(entries.drop_last(), j, e);
        assert(u.drop_last() =~= entries.drop_last().update(j, e));
    }
}

/// In a count of `keys`, the count found for any key is its number of occurrences.
pub proof fn lemma_count_in<K>(entries: Seq<(K, usize)>, keys: Seq<K>, k: K)
    requires
        counts_of(entries, keys),
    ensures
        count_in(entries, k) == occurrences(keys, k),
{
    if has_entry(entries, k) {
        let i = choose|i: int| 0 <= i < entries.len() && #[trigger] entries[i].0 == k;
        assert forall|j: int| 0 <= j < i implies #[trigger] entries[j].0 != k by {
            assert(entries[j].0 != entries[i].0);
        }
        lemma_first_entry(entries, k, i);
        assert(entries[i].1 == occurrences(keys, entries[i].0));
    }
}

proof fn lemma_occurrences_push<K>(keys: Seq<K>, x: K, k: K)
    ensures
        occurrences(keys.push(x), k) == occurrences(keys, k) + (if x == k { 1nat } else { 0nat }),
{
    keys.lemma_filter_push(x, is_key(k));
}

fn find_entry<K: CountKey>(entries: &Vec<(K, usize)>, k: &K) -> (r: Option<usize>)
    ensures
        match r {
            Some(i) => i < entries@.len() && entries@[i as int].0 == *k && forall|j: int|
                0 <= j < i ==> #[trigger] entries@[j].0 != *k,
            None => !has_entry(entries@, *k),
        },
{
    let mut i: usize = 0;
    while i < entries.len()
        invariant
            i <= entries@.len(),
            forall|j: int| 0 <= j < i ==> #[trigger] entries@[j].0 != *k,
        decreases entries@.len() - i,
    {
        if entries[i].0.same_key(k) {
            return Some(i);
        }
        i = i + 1;
    }
    None
}

/// Counts the keys: one entry per distinct key, in order of first occurrence; the
/// counts add up to the number of keys.
pub fn count_keys<K: CountKey>(keys: &Vec<K>) -> (r: Vec<(K, usize)>)
    ensures
        counts_of(r@, keys@),
        count_total(r@) == keys@.len(),
{
    let mut entries: Vec<(K, usize)> = Vec::new();
    let mut i: usize = 0;
    assert(keys@.take(0) =~= Seq::<K>::empty());
    proof {
        assert forall|k: K| #[trigger] has_entry(entries@, k) <==> occurrences(keys@.take(0), k) > 0 by {
            assert(keys@.take(0).filter(is_key(k)) =~= Seq::<K>::empty()) by {
                reveal_with_fuel(Seq::filter, 1);
            }
        }
    }
    while i < keys.len()
        invariant
            i <= keys@.len(),
            counts_of(entries@, keys@.take(i as int)),
            forall|j: int| 0 <= j < entries@.len() ==> #[trigger] entries@[j].1 <= i,
            count_total(entries@) == i,
        decreases keys@.len() - i,
    {
        let k = keys[i];
        let ghost prev = keys@.take(i as int);
        let ghost next = keys@.take(i + 1);
        let ghost before = entries@;
        proof {
            assert(next =~= prev.push(k));
            assert forall|x: K| occurrences(next, x) == occurrences(prev, x) + (if k == x { 1nat } else { 0nat }) by {
                lemma_occurrences_push(prev, k, x);
            }
        }
        match find_entry(&entries, &k) {
            Some(j) => {
                let c = entries[j].1;
                entries.set(j, (k, c + 1));
                proof {
                    lemma_count_total_update(before, j as int, (k, (c + 1) as usize));
                    assert forall|a: int, b: int| 0 <= a < b < entries@.len() implies entries@[a].0 != entries@[b].0 by {
                        assert(before[a].0 != before[b].0);
                    }
                    assert forall|a: int| 0 <= a < entries@.len() implies #[trigger] entries@[a].1 == occurrences(
                        next,
                        entries@[a].0,
                    ) by {
                        if a != j {
                            assert(before[a].0 != k);
                        }
                    }
                    assert forall|x: K| #[trigger] has_entry(entries@, x) <==> occurrences(next, x) > 0 by {
                        if has_entry(before, x) {
                            let a = choose|a: int| 0 <= a < before.len() && #[trigger] before[a].0 == x;
                            assert(entries@[a].0 == x);
                        }
                        if has_entry(entries@, x) {
                            let a = choose|a: int| 0 <= a < entries@.len() && #[trigger] entries@[a].0 == x;
                            assert(before[a].0 == x);
                        }
                    }
                }
            },
            None => {
                entries.push((k, 1));
                proof {
                    assert(entries@.drop_last() =~= before);
                    assert(occurrences(prev, k) == 0);
                    assert forall|a: int, b: int| 0 <= a < b < entries@.len() implies entries@[a].0 != entries@[b].0 by {
                        if b < before.len() {
                            assert(before[a].0 != before[b].0);
                        } else {
                            assert(entries@[a] == before[a]);
                        }
                    }
                    assert forall|a: int| 0 <= a < entries@.len() implies #[trigger] entries@[a].1 == occurrences(
                        next,
                        entries@[a].0,
                    ) by {
                        if a < before.len() {
                            assert(entries@[a] == before[a]);
                            assert(before[a].0 != k) by {
                                assert(has_entry(before, before[a].0));
                            }
                        }
                    }
                    assert forall|x: K| #[trigger] has_entry(entries@, x) <==> occurrences(next, x) > 0 by {
                        if has_entry(before, x) {
                            let a = choose|a: int| 0 <= a < before.len() && #[trigger] before[a].0 == x;
                            assert(entries@[a].0 == x);
                        }
                        if has_entry(entries@, x) {
                            let a = choose|a: int| 0 <= a < entries@.len() && #[trigger] entries@[a].0 == x;
                            if a < before.len() {
                                assert(before[a].0 == x);
                            }
                        }
                        if x == k {
                            assert(entries@[before.len() as int].0 == x);
                        }
                    }
                }
            },
        }
        i = i + 1;
    }
    assert(keys@.take(i as int) =~= keys@);
    entries
}

/// The count recorded for `k`, or zero.
pub fn count_for<K: CountKey>(entries: &Vec<(K, usize)>, k: &K) -> (r: usize)
    ensures
        r == count_in(entries@, *k),
        !has_entry(entries@, *k) ==> r == 0,
{
    match find_entry(entries, k) {
        Some(i) => {
            proof {
                lemma_first_entry(entries@, *k, i as int);
            }
            entries[i].1
        },
        None => 0,
    }
}

} // verus!
