//! One column: an ordered map from keys to values.
//!
//! The entries are kept in a vector, sorted by key, so that a walk over the
//! vector is a walk in key order and a lookup is a binary search.

use crate::buffer::{into_boxed, value_as_slice, value_bytes, value_clone, DBValue};
use crate::keys::{compare_keys, key_lt, lemma_lt_transitive, starts_with, KeyOrder};
use crate::ordered::{
    ascending, first_with_prefix, has_key, lemma_listed_map, lemma_lists_absent,
    lemma_lists_insert, lemma_lists_pairs_map, lemma_lists_remove, lemma_lists_update, lists,
    pair_bytes, pairs_map, with_prefix, ColumnMap, Pairs,
};
use vstd::prelude::*;
use vstd::slice::slice_to_vec;

verus! {

/// One stored entry.
struct Entry {
    key: Vec<u8>,
    value: DBValue,
}

impl Entry {
    /// The entry as a pair of byte strings.
    spec fn pair(self) -> (Seq<u8>, Seq<u8>) {
        (self.key@, value_bytes(self.value))
    }
}

/// The entries as pairs of byte strings.
spec fn pairs_of(entries: Seq<Entry>) -> Pairs {
    entries.map_values(|e: Entry| e.pair())
}

/// `x` is one of the first `n` pairs of `s`, and its key begins with `prefix`.
spec fn picked(s: Pairs, n: int, prefix: Seq<u8>, x: (Seq<u8>, Seq<u8>)) -> bool {
    exists|i: int| 0 <= i < n && #[trigger] s[i] == x && prefix.is_prefix_of(x.0)
}

/// An ordered map from keys to values, walked in ascending key order.
pub struct Column {
    entries: Vec<Entry>,
}

impl View for Column {
    type V = ColumnMap;

    /// The entries of the column as a map.
    closed spec fn view(&self) -> ColumnMap {
        pairs_map(self.pairs())
    }
}

impl Column {
    /// The entries in the order in which they are stored.
    spec fn pairs(&self) -> Pairs {
        pairs_of(self.entries@)
    }

    /// The entries are stored in strictly ascending key order.
    #[verifier::type_invariant]
    spec fn sorted(&self) -> bool {
        ascending(self.pairs())
    }

    /// An empty column.
    pub fn new() -> (column: Column)
        ensures
            column@ == ColumnMap::empty(),
    {
        let column = Column { entries: Vec::new() };
        assert(column@ =~= ColumnMap::empty());
        column
    }

    /// Where `key` is stored, or where it would have to be put.
    fn search(&self, key: &[u8]) -> (r: (usize, bool))
        ensures
            r.0 <= self.pairs().len(),
            r.1 ==> r.0 < self.pairs().len() && self.pairs()[r.0 as int].0 == key@,
            !r.1 ==> forall|i: int| 0 <= i < r.0 ==> key_lt((#[trigger] self.pairs()[i]).0, key@),
            !r.1 ==> forall|i: int|
                r.0 <= i < self.pairs().len() ==> key_lt(key@, (#[trigger] self.pairs()[i]).0),
    {
        proof {
            use_type_invariant(self);
        }
        let ghost s = self.pairs();
        let mut lo: usize = 0;
        let mut hi: usize = self.entries.len();
        while lo < hi
            invariant
                lo <= hi <= self.entries.len(),
                s == self.pairs(),
                ascending(s),
                forall|i: int| 0 <= i < lo ==> key_lt((#[trigger] s[i]).0, key@),
                forall|i: int| hi <= i < s.len() ==> key_lt(key@, (#[trigger] s[i]).0),
            decreases hi - lo,
        {
            let mid = lo + (hi - lo) / 2;
            assert(s[mid as int].0 == self.entries[mid as int].key@);
            match compare_keys(self.entries[mid].key.as_slice(), key) {
                KeyOrder::Less => {
                    assert forall|i: int| 0 <= i < mid + 1 implies key_lt(
                        (#[trigger] s[i]).0,
                        key@,
                    ) by {
                        if i < mid {
                            lemma_lt_transitive(s[i].0, s[mid as int].0, key@);
                        }
                    }
                    lo = mid + 1;
                },
                KeyOrder::Equal => {
                    return (mid, true);
                },
                KeyOrder::Greater => {
                    assert forall|i: int| mid <= i < s.len() implies key_lt(
                        key@,
                        (#[trigger] s[i]).0,
                    ) by {
                        if i > mid {
                            lemma_lt_transitive(key@, s[mid as int].0, s[i].0);
                        }
                    }
                    hi = mid;
                },
            }
        }
        (lo, false)
    }

    /// The value stored under `key`, if there is one.
    pub fn get(&self, key: &[u8]) -> (r: Option<DBValue>)
        ensures
            match r {
                Some(value) => self@.contains_key(key@) && value_bytes(value) == self@[key@],
                None => !self@.contains_key(key@),
            },
    {
        proof {
            use_type_invariant(self);
            lemma_lists_pairs_map(self.pairs());
        }
        let (at, found) = self.search(key);
        if found {
            Some(value_clone(&self.entries[at].value))
        } else {
            proof {
                lemma_lists_absent(self.pairs(), self@, at as int, key@);
            }
            None
        }
    }

    /// Stores `value` under `key`, in place of any value stored there before.
    pub fn insert(&mut self, key: Vec<u8>, value: DBValue)
        ensures
            final(self)@ == old(self)@.insert(key@, value_bytes(value)),
    {
        proof {
            use_type_invariant(&*self);
            lemma_lists_pairs_map(self.pairs());
        }
        let ghost before = self.pairs();
        let (at, found) = self.search(key.as_slice());
        let ghost k = key@;
        let ghost v = value_bytes(value);
        let mut entries: Vec<Entry> = Vec::new();
        std::mem::swap(&mut entries, &mut self.entries);
        if found {
            entries.set(at, Entry { key, value });
            proof {
                lemma_lists_update(before, old(self)@, at as int, v);
                assert(pairs_of(entries@) =~= before.update(at as int, (k, v)));
            }
        } else {
            entries.insert(at, Entry { key, value });
            proof {
                lemma_lists_insert(before, old(self)@, at as int, k, v);
                assert(pairs_of(entries@) =~= before.insert(at as int, (k, v)));
            }
        }
        proof {
            lemma_listed_map(pairs_of(entries@), old(self)@.insert(k, v));
        }
        self.entries = entries;
    }

    /// Removes `key` and its value, if it is stored.
    pub fn remove(&mut self, key: &[u8])
        ensures
            final(self)@ == old(self)@.remove(key@),
    {
        proof {
            use_type_invariant(&*self);
            lemma_lists_pairs_map(self.pairs());
        }
        let ghost before = self.pairs();
        let (at, found) = self.search(key);
        if found {
            let mut entries: Vec<Entry> = Vec::new();
            std::mem::swap(&mut entries, &mut self.entries);
            entries.remove(at);
            proof {
                lemma_lists_remove(before, old(self)@, at as int);
                assert(pairs_of(entries@) =~= before.remove(at as int));
                lemma_listed_map(pairs_of(entries@), old(self)@.remove(key@));
            }
            self.entries = entries;
        } else {
            proof {
                lemma_lists_absent(before, old(self)@, at as int, key@);
                assert(old(self)@.remove(key@) =~= old(self)@);
            }
        }
    }

    /// A copy of the entry at `at`, as a walk yields it.
    fn item(&self, at: usize) -> (item: (Box<[u8]>, Box<[u8]>))
        requires
            at < self.pairs().len(),
        ensures
            (item.0@, item.1@) == self.pairs()[at as int],
    {
        let entry = &self.entries[at];
        let key = into_boxed(slice_to_vec(entry.key.as_slice()));
        let value = into_boxed(slice_to_vec(value_as_slice(&entry.value)));
        (key, value)
    }

    /// The value of the first key, in key order, that begins with `prefix`.
    pub fn get_by_prefix(&self, prefix: &[u8]) -> (r: Option<Box<[u8]>>)
        ensures
            match r {
                Some(value) => exists|k: Seq<u8>|
                    first_with_prefix(self@, prefix@, k) && #[trigger] self@[k] == value@,
                None => forall|k: Seq<u8>|
                    #[trigger] self@.contains_key(k) ==> !prefix@.is_prefix_of(k),
            },
    {
        proof {
            use_type_invariant(self);
            lemma_lists_pairs_map(self.pairs());
        }
        let ghost s = self.pairs();
        let n = self.entries.len();
        let mut i: usize = 0;
        while i < n
            invariant
                i <= n,
                n == self.entries.len(),
                s == self.pairs(),
                lists(s, self@),
                forall|j: int| 0 <= j < i ==> !prefix@.is_prefix_of((#[trigger] s[j]).0),
            decreases n - i,
        {
            assert(s[i as int].0 == self.entries[i as int].key@);
            if starts_with(self.entries[i].key.as_slice(), prefix) {
                let value = into_boxed(slice_to_vec(value_as_slice(&self.entries[i].value)));
                proof {
                    let k = s[i as int].0;
                    assert(self@.contains_key(k) && self@[k] == s[i as int].1);
                    assert forall|other: Seq<u8>| #[trigger]
                        self@.contains_key(other) && prefix@.is_prefix_of(
                            other,
                        ) implies k == other || key_lt(k, other) by {
                        assert(has_key(s, other));
                        let j = choose|j: int| 0 <= j < s.len() && (#[trigger] s[j]).0 == other;
                        assert(j >= i);
                    }
                    assert(first_with_prefix(self@, prefix@, k));
                }
                return Some(value);
            }
            i += 1;
        }
        proof {
            assert forall|k: Seq<u8>| #[trigger] self@.contains_key(k) implies
                !prefix@.is_prefix_of(k) by {
                assert(has_key(s, k));
            }
        }
        None
    }

    /// The entries in ascending key order.
    pub fn iter(&self) -> (items: Vec<(Box<[u8]>, Box<[u8]>)>)
        ensures
            lists(pair_bytes(items@), self@),
    {
        proof {
            use_type_invariant(self);
            lemma_lists_pairs_map(self.pairs());
        }
        let n = self.entries.len();
        let mut items: Vec<(Box<[u8]>, Box<[u8]>)> = Vec::with_capacity(n);
        let mut i: usize = 0;
        while i < n
            invariant
                i <= n,
                n == self.entries.len(),
                pair_bytes(items@) == self.pairs().take(i as int),
            decreases n - i,
        {
            let ghost before = pair_bytes(items@);
            let item = self.item(i);
            items.push(item);
            assert(pair_bytes(items@) =~= before.push(self.pairs()[i as int]));
            i += 1;
            assert(pair_bytes(items@) =~= self.pairs().take(i as int));
        }
        assert(self.pairs().take(n as int) =~= self.pairs());
        items
    }

    /// The entries whose key begins with `prefix`, in ascending key order.
    pub fn iter_from_prefix(&self, prefix: &[u8]) -> (items: Vec<(Box<[u8]>, Box<[u8]>)>)
        ensures
            lists(pair_bytes(items@), with_prefix(self@, prefix@)),
    {
        proof {
            use_type_invariant(self);
            lemma_lists_pairs_map(self.pairs());
        }
        let ghost s = self.pairs();
        let n = self.entries.len();
        let mut items: Vec<(Box<[u8]>, Box<[u8]>)> = Vec::new();
        let mut i: usize = 0;
        while i < n
            invariant
                i <= n,
                n == self.entries.len(),
                s == self.pairs(),
                ascending(s),
                ascending(pair_bytes(items@)),
                forall|j: int|
                    0 <= j < items.len() ==> picked(
                        s,
                        i as int,
                        prefix@,
                        #[trigger] pair_bytes(items@)[j],
                    ),
                forall|j: int|
                    0 <= j < i && prefix@.is_prefix_of((#[trigger] s[j]).0) ==> has_key(
                        pair_bytes(items@),
                        s[j].0,
                    ),
            decreases n - i,
        {
            assert(s[i as int].0 == self.entries[i as int].key@);
            if starts_with(self.entries[i].key.as_slice(), prefix) {
                let ghost before = pair_bytes(items@);
                let item = self.item(i);
                items.push(item);
                proof {
                    let after = pair_bytes(items@);
                    assert(after =~= before.push(s[i as int]));
                    assert forall|a: int, b: int| 0 <= a < b < after.len() implies key_lt(
                        (#[trigger] after[a]).0,
                        (#[trigger] after[b]).0,
                    ) by {
                        assert(after[a] == before[a]);
                        if b < before.len() {
                            assert(after[b] == before[b]);
                        } else {
                            assert(picked(s, i as int, prefix@, before[a]));
                        }
                    }
                    assert forall|j: int| 0 <= j < items.len() implies picked(
                        s,
                        i + 1,
                        prefix@,
                        #[trigger] after[j],
                    ) by {
                        if j < before.len() {
                            assert(after[j] == before[j]);
                            assert(picked(s, i as int, prefix@, before[j]));
                        }
                    }
                    assert forall|j: int|
                        0 <= j < i + 1 && prefix@.is_prefix_of((#[trigger] s[j]).0) implies has_key(
                        after,
                        s[j].0,
                    ) by {
                        if j < i {
                            assert(has_key(before, s[j].0));
                            let c = choose|c: int|
                                0 <= c < before.len() && (#[trigger] before[c]).0 == s[j].0;
                            assert(after[c] == before[c]);
                        } else {
                            assert(after[before.len() as int] == s[i as int]);
                        }
                    }
                }
            } else {
                proof {
                    let now = pair_bytes(items@);
                    assert forall|j: int| 0 <= j < items.len() implies picked(
                        s,
                        i + 1,
                        prefix@,
                        #[trigger] now[j],
                    ) by {
                        assert(picked(s, i as int, prefix@, now[j]));
                    }
                }
            }
            i += 1;
        }
        proof {
            let found = pair_bytes(items@);
            let wanted = with_prefix(self@, prefix@);
            assert forall|j: int| 0 <= j < found.len() implies wanted.contains_key(
                (#[trigger] found[j]).0,
            ) && wanted[found[j].0] == found[j].1 by {
                assert(picked(s, n as int, prefix@, found[j]));
            }
            assert forall|k: Seq<u8>| #[trigger] wanted.contains_key(k) implies has_key(
                found,
                k,
            ) by {
                assert(self@.contains_key(k));
                assert(has_key(s, k));
            }
        }
        items
    }
}

} // verus!
