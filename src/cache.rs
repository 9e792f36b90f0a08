//! The result cache: insights memoised per document key in a bounded store
//! that evicts the least recently used entry.
//!
//! The store is `lru::LruCache`. Its contents are modelled as a sequence of
//! entries, most recently used first, so the entry at the end is the next to go.

use vstd::prelude::*;
use crate::insights::{views, Insight, InsightView};

verus! {

#[verifier::external_type_specification]
#[verifier::external_body]
#[verifier::reject_recursive_types(K)]
#[verifier::reject_recursive_types(V)]
#[verifier::reject_recursive_types(S)]
pub struct ExLruCache<K, V, S>(lru::LruCache<K, V, S>);

/// The store: keyed by document, hashed with std's `RandomState`.
pub type Store = lru::LruCache<String, Vec<Insight>, std::collections::hash_map::RandomState>;

pub type Entries = Seq<(Seq<char>, Seq<InsightView>)>;

/// The entries of an `LruCache`, most recently used first.
pub uninterp spec fn lru_entries(c: Store) -> Entries;

/// The capacity an `LruCache` was made with.
pub uninterp spec fn lru_capacity(c: Store) -> nat;

/// Index of the entry with key `k`, or -1 where there is none.
pub open spec fn key_index(e: Entries, k: Seq<char>) -> int
    decreases e.len(),
{
    if e.len() == 0 {
        -1
    } else if e[0].0 == k {
        0
    } else if key_index(e.drop_first(), k) < 0 {
        -1
    } else {
        key_index(e.drop_first(), k) + 1
    }
}

pub open spec fn unique_keys(e: Entries) -> bool {
    forall|i: int, j: int| 0 <= i < j < e.len() ==> e[i].0 != e[j].0
}

/// The value stored under `k`.
pub open spec fn lookup(e: Entries, k: Seq<char>) -> Option<Seq<InsightView>> {
    if key_index(e, k) >= 0 {
        Some(e[key_index(e, k)].1)
    } else {
        None
    }
}

/// The entries after a read of `k`: a hit moves to the front.
pub open spec fn after_get(e: Entries, k: Seq<char>) -> Entries {
    let i = key_index(e, k);
    if i >= 0 {
        seq![e[i]] + e.remove(i)
    } else {
        e
    }
}

/// The entries after `v` is stored under `k`: an existing entry for `k` is
/// replaced, else a full store drops its least recently used entry; either
/// way the new entry goes to the front.
pub open spec fn after_put(e: Entries, cap: nat, k: Seq<char>, v: Seq<InsightView>) -> Entries {
    let i = key_index(e, k);
    if i >= 0 {
        seq![(k, v)] + e.remove(i)
    } else if e.len() >= cap {
        seq![(k, v)] + e.take(cap - 1)
    } else {
        seq![(k, v)] + e
    }
}

/// Relies on `LruCache::with_hasher`: an empty store of the given capacity.
#[verifier::external_body]
fn lru_new(cap: usize) -> (r: Store)
    requires
        cap > 0,
    ensures
        lru_entries(r) == Seq::<(Seq<char>, Seq<InsightView>)>::empty(),
        lru_capacity(r) == cap,
{
    lru::LruCache::with_hasher(
        std::num::NonZeroUsize::new(cap).unwrap(),
        std::collections::hash_map::RandomState::new(),
    )
}

/// Relies on `LruCache::get`: a hit gives a copy of the value and moves the
/// entry to the front; a miss changes nothing.
#[verifier::external_body]
fn lru_get(c: &mut Store, k: &str) -> (r: Option<Vec<Insight>>)
    ensures
        lru_entries(*final(c)) == after_get(lru_entries(*old(c)), k@),
        lru_capacity(*final(c)) == lru_capacity(*old(c)),
        match r {
            Some(v) => lookup(lru_entries(*old(c)), k@) == Some(views(v@)),
            None => lookup(lru_entries(*old(c)), k@) is None,
        },
{
    c.get(k).cloned()
}

/// Relies on `LruCache::put`: replaces the value of an existing key, else
/// evicts the least recently used entry when full; the entry goes to the front.
#[verifier::external_body]
fn lru_put(c: &mut Store, k: String, v: Vec<Insight>)
    requires
        unique_keys(lru_entries(*old(c))),
        lru_entries(*old(c)).len() <= lru_capacity(*old(c)),
    ensures
        lru_entries(*final(c)) == after_put(
            lru_entries(*old(c)),
            lru_capacity(*old(c)),
            k@,
            views(v@),
        ),
        lru_capacity(*final(c)) == lru_capacity(*old(c)),
{
    c.put(k, v);
}

proof fn lemma_key_index(e: Entries, k: Seq<char>)
    ensures
        -1 <= key_index(e, k) < e.len(),
        key_index(e, k) >= 0 ==> e[key_index(e, k)].0 == k,
        key_index(e, k) < 0 ==> forall|j: int| 0 <= j < e.len() ==> e[j].0 != k,
    decreases e.len(),
{
    if e.len() > 0 && e[0].0 != k {
        lemma_key_index(e.drop_first(), k);
        if key_index(e, k) < 0 {
            assert forall|j: int| 0 <= j < e.len() implies e[j].0 != k by {
                if j > 0 {
                    assert(e.drop_first()[j - 1] == e[j]);
                }
            }
        }
    }
}

/// In a store with distinct keys, an entry's key finds that entry.
proof fn lemma_key_index_of_unique(e: Entries, j: int)
    requires
        unique_keys(e),
        0 <= j < e.len(),
    ensures
        key_index(e, e[j].0) == j,
{
    lemma_key_index(e, e[j].0);
    let i = key_index(e, e[j].0);
    if i != j {
        if i < j {
            assert(e[i].0 != e[j].0);
        } else {
            assert(e[j].0 != e[i].0);
        }
    }
}

/// Reading keeps the keys distinct and the count unchanged.
pub proof fn lemma_get_keeps_wf(e: Entries, k: Seq<char>)
    requires
        unique_keys(e),
    ensures
        unique_keys(after_get(e, k)),
        after_get(e, k).len() == e.len(),
{
    lemma_key_index(e, k);
    let i = key_index(e, k);
    if i >= 0 {
        let r = after_get(e, k);
        assert forall|a: int, b: int| 0 <= a < b < r.len() implies r[a].0 != r[b].0 by {
            let ia = if a == 0 { i } else if a - 1 < i { a - 1 } else { a };
            let ib = if b - 1 < i { b - 1 } else { b };
            assert(r[a] == e[ia]);
            assert(r[b] == e[ib]);
            assert(ia != ib);
        }
    }
}

/// Storing keeps the keys distinct and the count within the capacity.
pub proof fn lemma_put_keeps_wf(e: Entries, cap: nat, k: Seq<char>, v: Seq<InsightView>)
    requires
        unique_keys(e),
        e.len() <= cap,
        cap > 0,
    ensures
        unique_keys(after_put(e, cap, k, v)),
        after_put(e, cap, k, v).len() <= cap,
{
    lemma_key_index(e, k);
    let i = key_index(e, k);
    let r = after_put(e, cap, k, v);
    if i >= 0 {
        assert forall|a: int, b: int| 0 <= a < b < r.len() implies r[a].0 != r[b].0 by {
            let ib = if b - 1 < i { b - 1 } else { b };
            assert(r[b] == e[ib]);
            if a > 0 {
                let ia = if a - 1 < i { a - 1 } else { a };
                assert(r[a] == e[ia]);
            }
        }
    } else {
        assert forall|a: int, b: int| 0 <= a < b < r.len() implies r[a].0 != r[b].0 by {
            assert(r[b] == e[b - 1]);
            if a > 0 {
                assert(r[a] == e[a - 1]);
            }
        }
    }
}

/// A value just stored is what a read of its key gives: a second request for
/// the same document is answered from the store.
pub proof fn lemma_put_then_lookup(e: Entries, cap: nat, k: Seq<char>, v: Seq<InsightView>)
    requires
        cap > 0,
    ensures
        lookup(after_put(e, cap, k, v), k) == Some(v),
{
    let r = after_put(e, cap, k, v);
    assert(r[0].0 == k);
}

/// A read changes what the store holds for no key.
pub proof fn lemma_get_keeps_lookup(e: Entries, k: Seq<char>, q: Seq<char>)
    requires
        unique_keys(e),
    ensures
        lookup(after_get(e, k), q) == lookup(e, q),
{
    lemma_key_index(e, k);
    lemma_key_index(e, q);
    lemma_get_keeps_wf(e, k);
    let r = after_get(e, k);
    lemma_key_index(r, q);
    let i = key_index(e, k);
    if i >= 0 {
        if key_index(e, q) >= 0 {
            let j = key_index(e, q);
            let jr = if j == i { 0 } else if j < i { j + 1 } else { j };
            assert(r[jr] == e[j]);
            lemma_key_index_of_unique(r, jr);
        } else {
            assert forall|a: int| 0 <= a < r.len() implies r[a].0 != q by {
                let ia = if a == 0 { i } else if a - 1 < i { a - 1 } else { a };
                assert(r[a] == e[ia]);
            }
        }
    }
}

/// Storing a new key in a full store evicts exactly the least recently used
/// entry: a read of its key then misses, every other entry stays, and the
/// count stays at the capacity.
pub proof fn lemma_eviction(e: Entries, cap: nat, k: Seq<char>, v: Seq<InsightView>)
    requires
        unique_keys(e),
        cap > 0,
        e.len() == cap,
        lookup(e, k) is None,
    ensures
        after_put(e, cap, k, v).len() == cap,
        lookup(after_put(e, cap, k, v), e.last().0) is None,
        forall|j: int|
            0 <= j < e.len() - 1 ==> lookup(after_put(e, cap, k, v), #[trigger] e[j].0) == Some(
                e[j].1,
            ),
{
    lemma_key_index(e, k);
    let r = after_put(e, cap, k, v);
    lemma_put_keeps_wf(e, cap, k, v);
    let last = e.last().0;
    lemma_key_index(r, last);
    assert forall|a: int| 0 <= a < r.len() implies r[a].0 != last by {
        if a > 0 {
            assert(r[a] == e[a - 1]);
            assert(e[a - 1].0 != e[e.len() - 1].0);
        }
    }
    assert forall|j: int| 0 <= j < e.len() - 1 implies lookup(r, #[trigger] e[j].0) == Some(
        e[j].1,
    ) by {
        assert(r[j + 1] == e[j]);
        lemma_key_index_of_unique(r, j + 1);
    }
}

/// Insights memoised per document key.
pub struct DocumentCache {
    cache: Store,
}

impl DocumentCache {
    /// The entries held, most recently used first.
    pub closed spec fn entries(&self) -> Entries {
        lru_entries(self.cache)
    }

    pub closed spec fn capacity(&self) -> nat {
        lru_capacity(self.cache)
    }

    pub open spec fn wf(&self) -> bool {
        &&& unique_keys(self.entries())
        &&& self.entries().len() <= self.capacity()
        &&& self.capacity() > 0
    }

    /// An empty cache that holds at most `capacity` documents.
    pub fn new(capacity: usize) -> (r: Self)
        requires
            capacity > 0,
        ensures
            r.wf(),
            r.entries() == Seq::<(Seq<char>, Seq<InsightView>)>::empty(),
            r.capacity() == capacity,
    {
        DocumentCache { cache: lru_new(capacity) }
    }

    /// The insights stored under `key`; a hit becomes the most recently used.
    pub fn get(&mut self, key: &str) -> (r: Option<Vec<Insight>>)
        requires
            old(self).wf(),
        ensures
            final(self).wf(),
            final(self).capacity() == old(self).capacity(),
            final(self).entries() == after_get(old(self).entries(), key@),
            match r {
                Some(v) => lookup(old(self).entries(), key@) == Some(views(v@)),
                None => lookup(old(self).entries(), key@) is None,
            },
    {
        proof {
            lemma_get_keeps_wf(self.entries(), key@);
        }
        lru_get(&mut self.cache, key)
    }

    /// Stores `value` under `key`, evicting the least recently used entry when full.
    pub fn insert(&mut self, key: String, value: Vec<Insight>)
        requires
            old(self).wf(),
        ensures
            final(self).wf(),
            final(self).capacity() == old(self).capacity(),
            final(self).entries() == after_put(
                old(self).entries(),
                old(self).capacity(),
                key@,
                views(value@),
            ),
    {
        proof {
            lemma_put_keeps_wf(self.entries(), self.capacity(), key@, views(value@));
        }
        lru_put(&mut self.cache, key, value);
    }
}

} // verus!
