//! A list of records with distinct text keys, kept in insertion order.
use vstd::prelude::*;

use crate::text::str_eq;

verus! {

/// A record found by a text key.
pub trait Keyed {
    spec fn key_of(&self) -> Seq<char>;

    fn key_text(&self) -> (r: &str)
        ensures
            r@ == self.key_of(),
    ;
}

/// No two records share a key.
pub open spec fn unique_keys<T: Keyed>(s: Seq<T>) -> bool {
    forall|i: int, j: int| 0 <= i < j < s.len() ==> s[i].key_of() != s[j].key_of()
}

/// Some record has key `k`.
pub open spec fn has_key<T: Keyed>(s: Seq<T>, k: Seq<char>) -> bool {
    exists|i: int| 0 <= i < s.len() && #[trigger] s[i].key_of() == k
}

/// The record with key `k`, if any.
pub open spec fn lookup_key<T: Keyed>(s: Seq<T>, k: Seq<char>) -> Option<T> {
    if has_key(s, k) {
        Some(s[choose|i: int| 0 <= i < s.len() && #[trigger] s[i].key_of() == k])
    } else {
        None
    }
}

/// A reference taken by the value it points to.
pub open spec fn deref_item<T>(r: Option<&T>) -> Option<T> {
    match r {
        Some(p) => Some(*p),
        None => None,
    }
}

/// In a list with distinct keys, the record at a place is the one its key finds.
pub proof fn lemma_lookup_at<T: Keyed>(s: Seq<T>, i: int)
    requires
        unique_keys(s),
        0 <= i < s.len(),
    ensures
        lookup_key(s, s[i].key_of()) == Some(s[i]),
{
    let k = s[i].key_of();
    assert(s[i].key_of() == k);
    let c = choose|c: int| 0 <= c < s.len() && #[trigger] s[c].key_of() == k;
    if c < i {
    } else if c > i {
    }
}

/// Two lists with distinct keys that hold the same records apart from those keyed by
/// `key` agree on every other key.
pub proof fn lemma_lookup_other<T: Keyed>(s: Seq<T>, t: Seq<T>, key: Seq<char>, k: Seq<char>)
    requires
        unique_keys(s),
        unique_keys(t),
        k != key,
        forall|j: int| 0 <= j < s.len() && #[trigger] s[j].key_of() != key ==> exists|m: int|
            0 <= m < t.len() && #[trigger] t[m] == s[j],
        forall|m: int| 0 <= m < t.len() && #[trigger] t[m].key_of() != key ==> exists|j: int|
            0 <= j < s.len() && #[trigger] s[j] == t[m],
    ensures
        lookup_key(t, k) == lookup_key(s, k),
{
    if has_key(s, k) {
        let j = choose|j: int| 0 <= j < s.len() && #[trigger] s[j].key_of() == k;
        lemma_lookup_at(s, j);
        let m = choose|m: int| 0 <= m < t.len() && #[trigger] t[m] == s[j];
        lemma_lookup_at(t, m);
    } else if has_key(t, k) {
        let m = choose|m: int| 0 <= m < t.len() && #[trigger] t[m].key_of() == k;
        let j = choose|j: int| 0 <= j < s.len() && #[trigger] s[j] == t[m];
        assert(s[j].key_of() == k);
    }
}

/// The list with its records in order; no two share a key.
#[derive(Debug)]
pub struct KeyedList<T: Keyed> {
    items: Vec<T>,
}

impl<T: Keyed> View for KeyedList<T> {
    type V = Seq<T>;

    closed spec fn view(&self) -> Seq<T> {
        self.items@
    }
}

impl<T: Keyed> KeyedList<T> {
    #[verifier::type_invariant]
    closed spec fn inv(self) -> bool {
        unique_keys(self.items@)
    }

    pub fn new() -> (r: KeyedList<T>)
        ensures
            r@ == Seq::<T>::empty(),
    {
        KeyedList { items: Vec::new() }
    }

    /// No two records share a key.
    pub fn check_unique(&self)
        ensures
            unique_keys(self@),
    {
        proof {
            use_type_invariant(self);
        }
    }

    /// The place of the record with key `key`.
    pub fn position(&self, key: &str) -> (r: Option<usize>)
        ensures
            match r {
                Some(i) => i < self@.len() && self@[i as int].key_of() == key@ && lookup_key(self@, key@)
                    == Some(self@[i as int]),
                None => !has_key(self@, key@) && lookup_key(self@, key@) is None,
            },
    {
        proof {
            use_type_invariant(self);
        }
        let mut i: usize = 0;
        while i < self.items.len()
            invariant
                i <= self.items.len(),
                unique_keys(self.items@),
                forall|j: int| 0 <= j < i ==> #[trigger] self.items@[j].key_of() != key@,
            decreases self.items.len() - i,
        {
            if str_eq(self.items[i].key_text(), key) {
                proof {
                    lemma_lookup_at(self.items@, i as int);
                }
                return Some(i);
            }
            i = i + 1;
        }
        None
    }

    pub fn get(&self, key: &str) -> (r: Option<&T>)
        ensures
            deref_item(r) == lookup_key(self@, key@),
    {
        match self.position(key) {
            Some(i) => Some(&self.items[i]),
            None => None,
        }
    }

    pub fn contains(&self, key: &str) -> (r: bool)
        ensures
            r == has_key(self@, key@),
    {
        self.position(key).is_some()
    }

    /// The record at place `i`.
    pub fn at(&self, i: usize) -> (r: &T)
        requires
            i < self@.len(),
        ensures
            *r == self@[i as int],
    {
        &self.items[i]
    }

    /// Stores `item` in place of the record with its key, or last; returns the record
    /// it replaced.
    pub fn insert(&mut self, item: T) -> (r: Option<T>)
        ensures
            unique_keys(final(self)@),
            r == lookup_key(old(self)@, item.key_of()),
            lookup_key(final(self)@, item.key_of()) == Some(item),
            forall|k: Seq<char>| k != item.key_of() ==> #[trigger] lookup_key(final(self)@, k)
                == lookup_key(old(self)@, k),
            match r {
                Some(_) => final(self)@.len() == old(self)@.len(),
                None => final(self)@ == old(self)@.push(item),
            },
    {
        proof {
            use_type_invariant(&*self);
        }
        let ghost key = item.key_of();
        match self.position(item.key_text()) {
            Some(i) => {
                let ghost before = self.items@;
                let previous = self.replace_at(i, item);
                proof {
                    let after = self.items@;
                    lemma_lookup_at(after, i as int);
                    assert forall|k: Seq<char>| k != key implies #[trigger] lookup_key(after, k)
                        == lookup_key(before, k) by {
                        assert forall|j: int| 0 <= j < before.len() && #[trigger] before[j].key_of()
                            != key implies exists|m: int| 0 <= m < after.len() && #[trigger] after[m]
                            == before[j] by {
                            assert(after[j] == before[j]);
                        }
                        assert forall|m: int| 0 <= m < after.len() && #[trigger] after[m].key_of()
                            != key implies exists|j: int| 0 <= j < before.len() && #[trigger] before[j]
                            == after[m] by {
                            assert(after[m] == before[m]);
                        }
                        lemma_lookup_other(before, after, key, k);
                    }
                }
                Some(previous)
            },
            None => {
                let mut items = Vec::new();
                std::mem::swap(&mut items, &mut self.items);
                let ghost before = items@;
                items.push(item);
                proof {
                    let n = before.len();
                    let after = items@;
                    assert forall|x: int, y: int| 0 <= x < y < after.len() implies after[x].key_of()
                        != after[y].key_of() by {
                        if y == n {
                            assert(after[x] == before[x]);
                        } else {
                            assert(after[x] == before[x] && after[y] == before[y]);
                        }
                    }
                    lemma_lookup_at(after, n as int);
                    assert forall|k: Seq<char>| k != key implies #[trigger] lookup_key(after, k)
                        == lookup_key(before, k) by {
                        assert forall|j: int| 0 <= j < before.len() && #[trigger] before[j].key_of()
                            != key implies exists|m: int| 0 <= m < after.len() && #[trigger] after[m]
                            == before[j] by {
                            assert(after[j] == before[j]);
                        }
                        assert forall|m: int| 0 <= m < after.len() && #[trigger] after[m].key_of()
                            != key implies exists|j: int| 0 <= j < before.len() && #[trigger] before[j]
                            == after[m] by {
                            assert(after[m] == before[m]);
                        }
                        lemma_lookup_other(before, after, key, k);
                    }
                }
                self.items = items;
                None
            },
        }
    }

    /// Puts `item` at place `i`, whose record has the same key; returns that record.
    pub fn replace_at(&mut self, i: usize, item: T) -> (r: T)
        requires
            i < old(self)@.len(),
            old(self)@[i as int].key_of() == item.key_of(),
        ensures
            r == old(self)@[i as int],
            final(self)@ == old(self)@.update(i as int, item),
            unique_keys(final(self)@),
    {
        proof {
            use_type_invariant(&*self);
        }
        let mut items = Vec::new();
        std::mem::swap(&mut items, &mut self.items);
        let ghost before = items@;
        let previous = items.remove(i);
        items.insert(i, item);
        proof {
            assert(items@ =~= before.update(i as int, item));
            assert forall|x: int, y: int| 0 <= x < y < items@.len() implies items@[x].key_of()
                != items@[y].key_of() by {
                if x != i && y != i {
                    assert(items@[x] == before[x] && items@[y] == before[y]);
                } else if x == i {
                    assert(items@[y] == before[y]);
                } else {
                    assert(items@[x] == before[x]);
                }
            }
        }
        self.items = items;
        previous
    }

    /// Removes the record with key `key` and returns it; the others keep their order.
    pub fn remove(&mut self, key: &str) -> (r: Option<T>)
        ensures
            unique_keys(final(self)@),
            r == lookup_key(old(self)@, key@),
            lookup_key(final(self)@, key@) is None,
            forall|k: Seq<char>| k != key@ ==> #[trigger] lookup_key(final(self)@, k) == lookup_key(
                old(self)@,
                k,
            ),
            match r {
                Some(_) => exists|i: int| 0 <= i < old(self)@.len() && final(self)@ == old(self)@.remove(i),
                None => final(self)@ == old(self)@,
            },
    {
        proof {
            use_type_invariant(&*self);
        }
        let ghost k0 = key@;
        match self.position(key) {
            Some(i) => {
                let mut items = Vec::new();
                std::mem::swap(&mut items, &mut self.items);
                let ghost before = items@;
                let removed = items.remove(i);
                proof {
                    let after = items@;
                    assert forall|x: int, y: int| 0 <= x < y < after.len() implies after[x].key_of()
                        != after[y].key_of() by {
                        if x < i && y < i {
                            assert(after[x] == before[x] && after[y] == before[y]);
                        } else if x < i {
                            assert(after[x] == before[x] && after[y] == before[y + 1]);
                        } else {
                            assert(after[x] == before[x + 1] && after[y] == before[y + 1]);
                        }
                    }
                    assert(!has_key(after, k0)) by {
                        if has_key(after, k0) {
                            let m = choose|m: int| 0 <= m < after.len() && #[trigger] after[m].key_of() == k0;
                            if m < i {
                                assert(after[m] == before[m]);
                            } else {
                                assert(after[m] == before[m + 1]);
                            }
                        }
                    }
                    assert forall|k: Seq<char>| k != k0 implies #[trigger] lookup_key(after, k)
                        == lookup_key(before, k) by {
                        assert forall|j: int| 0 <= j < before.len() && #[trigger] before[j].key_of()
                            != k0 implies exists|m: int| 0 <= m < after.len() && #[trigger] after[m]
                            == before[j] by {
                            if j < i {
                                assert(after[j] == before[j]);
                            } else {
                                assert(after[j - 1] == before[j]);
                            }
                        }
                        assert forall|m: int| 0 <= m < after.len() && #[trigger] after[m].key_of()
                            != k0 implies exists|j: int| 0 <= j < before.len() && #[trigger] before[j]
                            == after[m] by {
                            if m < i {
                                assert(after[m] == before[m]);
                            } else {
                                assert(after[m] == before[m + 1]);
                            }
                        }
                        lemma_lookup_other(before, after, k0, k);
                    }
                }
                self.items = items;
                Some(removed)
            },
            None => None,
        }
    }

    /// The records, in order.
    pub fn items(&self) -> (r: &Vec<T>)
        ensures
            r@ == self@,
    {
        &self.items
    }

    pub fn len(&self) -> (r: usize)
        ensures
            r == self@.len(),
    {
        self.items.len()
    }

    pub fn clear(&mut self)
        ensures
            final(self)@ == Seq::<T>::empty(),
    {
        self.items = Vec::new();
    }
}

} // verus!
