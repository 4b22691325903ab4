//! Ordered listings: what a column yields when it is walked in key order.
//!
//! A column is a finite map from keys to values.  Its listing is the sequence
//! of its key-value pairs in strictly ascending key order.

use crate::keys::{key_le, key_lt, lemma_lt_irreflexive, lemma_lt_transitive};
use vstd::prelude::*;

verus! {

/// The contents of one column: a map from key bytes to value bytes.
pub type ColumnMap = Map<Seq<u8>, Seq<u8>>;

/// A sequence of key-value pairs.
pub type Pairs = Seq<(Seq<u8>, Seq<u8>)>;

/// The byte strings that the items of a walk hold.
pub open spec fn pair_bytes(items: Seq<(Box<[u8]>, Box<[u8]>)>) -> Pairs {
    items.map_values(|item: (Box<[u8]>, Box<[u8]>)| (item.0@, item.1@))
}

/// The keys of `s` are strictly ascending.
pub open spec fn ascending(s: Pairs) -> bool {
    forall|i: int, j: int| 0 <= i < j < s.len() ==> key_lt((#[trigger] s[i]).0, (#[trigger] s[j]).0)
}

/// Some pair of `s` has the key `k`.
pub open spec fn has_key(s: Pairs, k: Seq<u8>) -> bool {
    exists|i: int| 0 <= i < s.len() && (#[trigger] s[i]).0 == k
}

/// `s` is the listing of `m`: its keys ascend strictly, and its pairs are
/// exactly the entries of `m`.
pub open spec fn lists(s: Pairs, m: ColumnMap) -> bool {
    &&& ascending(s)
    &&& forall|i: int|
        0 <= i < s.len() ==> m.contains_key((#[trigger] s[i]).0) && m[s[i].0] == s[i].1
    &&& forall|k: Seq<u8>| #[trigger] m.contains_key(k) ==> has_key(s, k)
}

/// The map that holds the pairs of `s`.
pub open spec fn pairs_map(s: Pairs) -> ColumnMap {
    Map::new(
        |k: Seq<u8>| has_key(s, k),
        |k: Seq<u8>| s[choose|i: int| 0 <= i < s.len() && (#[trigger] s[i]).0 == k].1,
    )
}

/// The entries of `m` whose key begins with `prefix`.
pub open spec fn with_prefix(m: ColumnMap, prefix: Seq<u8>) -> ColumnMap {
    Map::new(|k: Seq<u8>| m.contains_key(k) && prefix.is_prefix_of(k), |k: Seq<u8>| m[k])
}

/// Every key of `s` begins with `prefix`.
pub open spec fn all_begin_with(s: Pairs, prefix: Seq<u8>) -> bool {
    forall|i: int| 0 <= i < s.len() ==> prefix.is_prefix_of((#[trigger] s[i]).0)
}

/// `k` is the first key of `m`, in key order, that begins with `prefix`.
pub open spec fn first_with_prefix(m: ColumnMap, prefix: Seq<u8>, k: Seq<u8>) -> bool {
    &&& m.contains_key(k)
    &&& prefix.is_prefix_of(k)
    &&& forall|other: Seq<u8>|
        #[trigger] m.contains_key(other) && prefix.is_prefix_of(other) ==> key_le(k, other)
}

/// In an ascending sequence no key occurs twice.
pub proof fn lemma_ascending_distinct(s: Pairs, i: int, j: int)
    requires
        ascending(s),
        0 <= i < s.len(),
        0 <= j < s.len(),
        s[i].0 == s[j].0,
    ensures
        i == j,
{
    lemma_lt_irreflexive(s[i].0);
}

/// An ascending sequence is the listing of the map that holds its pairs.
pub proof fn lemma_lists_pairs_map(s: Pairs)
    requires
        ascending(s),
    ensures
        lists(s, pairs_map(s)),
{
    let m = pairs_map(s);
    assert forall|i: int| 0 <= i < s.len() implies m.contains_key((#[trigger] s[i]).0) && m[s[i].0]
        == s[i].1 by {
        let k = s[i].0;
        assert(has_key(s, k));
        let c = choose|c: int| 0 <= c < s.len() && (#[trigger] s[c]).0 == k;
        lemma_ascending_distinct(s, i, c);
    }
}

/// A map has at most one listing.
pub proof fn lemma_lists_unique(s: Pairs, t: Pairs, m: ColumnMap)
    requires
        lists(s, m),
        lists(t, m),
    ensures
        s == t,
    decreases s.len(),
{
    if s.len() == 0 {
        if t.len() > 0 {
            assert(m.contains_key(t[0].0));
            assert(has_key(s, t[0].0));
        }
        assert(s =~= t);
    } else {
        assert(m.contains_key(s[0].0));
        assert(has_key(t, s[0].0));
        let j = choose|j: int| 0 <= j < t.len() && (#[trigger] t[j]).0 == s[0].0;
        assert(m.contains_key(t[0].0));
        assert(has_key(s, t[0].0));
        let i = choose|i: int| 0 <= i < s.len() && (#[trigger] s[i]).0 == t[0].0;
        if j > 0 {
            // then t[0] < t[j] = s[0] <= s[i] = t[0], which cannot be
            if i > 0 {
                lemma_lt_transitive(t[0].0, s[0].0, s[i].0);
            }
            lemma_lt_irreflexive(t[0].0);
        }
        assert(j == 0);
        let k = s[0].0;
        let s1 = s.skip(1);
        let t1 = t.skip(1);
        let m1 = m.remove(k);
        assert(lists(s1, m1)) by {
            lemma_lists_skip(s, m);
        }
        assert(lists(t1, m1)) by {
            lemma_lists_skip(t, m);
        }
        lemma_lists_unique(s1, t1, m1);
        assert(s =~= t) by {
            assert(s[0] == t[0]);
            assert forall|n: int| 0 < n < s.len() implies s[n] == t[n] by {
                assert(s1[n - 1] == s[n]);
                assert(t1[n - 1] == t[n]);
            }
            assert(s.len() == s1.len() + 1);
            assert(t.len() == t1.len() + 1);
        }
    }
}

/// Dropping the first pair of a listing lists the map without that pair's key.
pub proof fn lemma_lists_skip(s: Pairs, m: ColumnMap)
    requires
        lists(s, m),
        s.len() > 0,
    ensures
        lists(s.skip(1), m.remove(s[0].0)),
{
    let k = s[0].0;
    let s1 = s.skip(1);
    let m1 = m.remove(k);
    assert forall|i: int, j: int| 0 <= i < j < s1.len() implies key_lt(
        (#[trigger] s1[i]).0,
        (#[trigger] s1[j]).0,
    ) by {
        assert(s1[i] == s[i + 1]);
        assert(s1[j] == s[j + 1]);
    }
    assert forall|i: int| 0 <= i < s1.len() implies m1.contains_key((#[trigger] s1[i]).0)
        && m1[s1[i].0] == s1[i].1 by {
        assert(s1[i] == s[i + 1]);
        lemma_lt_irreflexive(k);
        assert(key_lt(s[0].0, s[i + 1].0));
    }
    assert forall|q: Seq<u8>| #[trigger] m1.contains_key(q) implies has_key(s1, q) by {
        assert(m.contains_key(q));
        assert(has_key(s, q));
        let i = choose|i: int| 0 <= i < s.len() && (#[trigger] s[i]).0 == q;
        assert(i > 0);
        assert(s1[i - 1] == s[i]);
    }
}

/// A map is the one that holds the pairs of its listing.
pub proof fn lemma_listed_map(s: Pairs, m: ColumnMap)
    requires
        lists(s, m),
    ensures
        m == pairs_map(s),
{
    lemma_lists_pairs_map(s);
    let p = pairs_map(s);
    assert forall|k: Seq<u8>| m.contains_key(k) == p.contains_key(k) by {
        if has_key(s, k) {
            let i = choose|i: int| 0 <= i < s.len() && (#[trigger] s[i]).0 == k;
            assert(m.contains_key(s[i].0));
        }
    }
    assert forall|k: Seq<u8>| #[trigger] m.contains_key(k) implies m[k] == p[k] by {
        assert(has_key(s, k));
        let i = choose|i: int| 0 <= i < s.len() && (#[trigger] s[i]).0 == k;
        assert(m[s[i].0] == s[i].1);
        assert(p[s[i].0] == s[i].1);
    }
    assert(m =~= p);
}

/// Placing a pair with a new key where the order wants it lists the map with
/// that entry added.
pub proof fn lemma_lists_insert(s: Pairs, m: ColumnMap, at: int, k: Seq<u8>, v: Seq<u8>)
    requires
        lists(s, m),
        0 <= at <= s.len(),
        forall|i: int| 0 <= i < at ==> key_lt((#[trigger] s[i]).0, k),
        forall|i: int| at <= i < s.len() ==> key_lt(k, (#[trigger] s[i]).0),
    ensures
        lists(s.insert(at, (k, v)), m.insert(k, v)),
{
    let t = s.insert(at, (k, v));
    let n = m.insert(k, v);
    assert forall|i: int, j: int| 0 <= i < j < t.len() implies key_lt(
        (#[trigger] t[i]).0,
        (#[trigger] t[j]).0,
    ) by {
        if j < at {
            assert(t[i] == s[i] && t[j] == s[j]);
        } else if j == at {
            assert(t[i] == s[i]);
        } else if i < at {
            assert(t[i] == s[i] && t[j] == s[j - 1]);
        } else if i == at {
            assert(t[j] == s[j - 1]);
        } else {
            assert(t[i] == s[i - 1] && t[j] == s[j - 1]);
        }
    }
    assert forall|i: int| 0 <= i < t.len() implies n.contains_key((#[trigger] t[i]).0) && n[t[i].0]
        == t[i].1 by {
        if i < at {
            assert(t[i] == s[i]);
            lemma_lt_irreflexive(k);
        } else if i > at {
            assert(t[i] == s[i - 1]);
            lemma_lt_irreflexive(k);
        }
    }
    assert forall|q: Seq<u8>| #[trigger] n.contains_key(q) implies has_key(t, q) by {
        if q == k {
            assert(t[at].0 == q);
        } else {
            assert(m.contains_key(q));
            assert(has_key(s, q));
            let i = choose|i: int| 0 <= i < s.len() && (#[trigger] s[i]).0 == q;
            if i < at {
                assert(t[i] == s[i]);
            } else {
                assert(t[i + 1] == s[i]);
            }
        }
    }
}

/// Replacing the value of a listed key lists the map with that entry replaced.
pub proof fn lemma_lists_update(s: Pairs, m: ColumnMap, at: int, v: Seq<u8>)
    requires
        lists(s, m),
        0 <= at < s.len(),
    ensures
        lists(s.update(at, (s[at].0, v)), m.insert(s[at].0, v)),
{
    let k = s[at].0;
    let t = s.update(at, (k, v));
    let n = m.insert(k, v);
    assert forall|i: int, j: int| 0 <= i < j < t.len() implies key_lt(
        (#[trigger] t[i]).0,
        (#[trigger] t[j]).0,
    ) by {
        assert(t[i].0 == s[i].0 && t[j].0 == s[j].0);
    }
    assert forall|i: int| 0 <= i < t.len() implies n.contains_key((#[trigger] t[i]).0) && n[t[i].0]
        == t[i].1 by {
        if i != at {
            assert(t[i] == s[i]);
            if s[i].0 == k {
                lemma_ascending_distinct(s, i, at);
            }
        }
    }
    assert forall|q: Seq<u8>| #[trigger] n.contains_key(q) implies has_key(t, q) by {
        if q == k {
            assert(t[at].0 == q);
        } else {
            assert(has_key(s, q));
            let i = choose|i: int| 0 <= i < s.len() && (#[trigger] s[i]).0 == q;
            assert(t[i].0 == q);
        }
    }
}

/// Taking a pair out of a listing lists the map without that pair's key.
pub proof fn lemma_lists_remove(s: Pairs, m: ColumnMap, at: int)
    requires
        lists(s, m),
        0 <= at < s.len(),
    ensures
        lists(s.remove(at), m.remove(s[at].0)),
{
    let k = s[at].0;
    let t = s.remove(at);
    let n = m.remove(k);
    assert forall|i: int, j: int| 0 <= i < j < t.len() implies key_lt(
        (#[trigger] t[i]).0,
        (#[trigger] t[j]).0,
    ) by {
        let a = if i < at { i } else { i + 1 };
        let b = if j < at { j } else { j + 1 };
        assert(t[i] == s[a] && t[j] == s[b]);
    }
    assert forall|i: int| 0 <= i < t.len() implies n.contains_key((#[trigger] t[i]).0) && n[t[i].0]
        == t[i].1 by {
        let a = if i < at { i } else { i + 1 };
        assert(t[i] == s[a]);
        if s[a].0 == k {
            lemma_ascending_distinct(s, a, at);
        }
    }
    assert forall|q: Seq<u8>| #[trigger] n.contains_key(q) implies has_key(t, q) by {
        assert(has_key(s, q));
        let i = choose|i: int| 0 <= i < s.len() && (#[trigger] s[i]).0 == q;
        if i < at {
            assert(t[i] == s[i]);
        } else {
            assert(t[i - 1] == s[i]);
        }
    }
}

/// A key that sorts strictly between two neighbours of a listing, or outside
/// all of its keys, is not in the map.
pub proof fn lemma_lists_absent(s: Pairs, m: ColumnMap, at: int, k: Seq<u8>)
    requires
        lists(s, m),
        0 <= at <= s.len(),
        forall|i: int| 0 <= i < at ==> key_lt((#[trigger] s[i]).0, k),
        forall|i: int| at <= i < s.len() ==> key_lt(k, (#[trigger] s[i]).0),
    ensures
        !m.contains_key(k),
{
    if m.contains_key(k) {
        assert(has_key(s, k));
        let i = choose|i: int| 0 <= i < s.len() && (#[trigger] s[i]).0 == k;
        lemma_lt_irreflexive(k);
    }
}

} // verus!
