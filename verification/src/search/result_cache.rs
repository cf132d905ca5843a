//! The least-recently-used cache of search results.
//!
//! Entries live in an `lru::LruCache`, keyed by small integer ids; the
//! library maps each cache key to its id, so that hits, misses and
//! evictions are decided and counted here, with contracts. A cached value is
//! an id of the results it stands for; the results themselves are kept by
//! the caller.

use vstd::prelude::*;
use lru::LruCache;
use std::num::NonZeroUsize;
use crate::search::cache::{put_evicts, CacheKey, CacheStats};
use crate::text::str_equal;

verus! {

#[verifier::external_type_specification]
#[verifier::external_body]
#[verifier::reject_recursive_types(K)]
#[verifier::reject_recursive_types(V)]
#[verifier::reject_recursive_types(S)]
pub struct ExLruCache<K, V, S>(LruCache<K, V, S>);

#[verifier::external_type_specification]
#[verifier::external_body]
pub struct ExLruHasher(lru::DefaultHasher);

/// Named contents of an LRU cache of integers: its entries, most recently
/// used first.
pub uninterp spec fn lru_entries(c: LruCache<u64, u64>) -> Seq<(u64, u64)>;

/// Named capacity of an LRU cache of integers: the most entries it holds.
pub uninterp spec fn lru_capacity(c: LruCache<u64, u64>) -> nat;

/// No key occurs twice.
pub open spec fn distinct_keys<K>(e: Seq<(K, u64)>) -> bool {
    forall|i: int, j: int| 0 <= i < j < e.len() ==> #[trigger] e[i].0 != #[trigger] e[j].0
}

/// Some entry has the key.
pub open spec fn has_key<K>(e: Seq<(K, u64)>, k: K) -> bool {
    exists|i: int| 0 <= i < e.len() && #[trigger] e[i].0 == k
}

/// The position of the entry with the key (meaningful when there is one).
pub open spec fn key_index<K>(e: Seq<(K, u64)>, k: K) -> int {
    choose|i: int| 0 <= i < e.len() && #[trigger] e[i].0 == k
}

/// The value under the key, if any.
pub open spec fn value_of<K>(e: Seq<(K, u64)>, k: K) -> Option<u64> {
    if has_key(e, k) {
        Some(e[key_index(e, k)].1)
    } else {
        None
    }
}

/// The entries after a lookup: a found entry moves to the front.
pub open spec fn after_get<K>(e: Seq<(K, u64)>, k: K) -> Seq<(K, u64)> {
    if has_key(e, k) {
        seq![e[key_index(e, k)]] + e.remove(key_index(e, k))
    } else {
        e
    }
}

/// The entries after putting `v` under `k` with room for `cap` entries: an
/// entry with the key is updated and moved to the front; otherwise the new
/// entry goes to the front, and the least recently used entry is dropped
/// when the cache is full.
pub open spec fn after_put<K>(e: Seq<(K, u64)>, k: K, v: u64, cap: nat) -> Seq<(K, u64)> {
    if has_key(e, k) {
        seq![(k, v)] + e.remove(key_index(e, k))
    } else if e.len() >= cap {
        seq![(k, v)] + e.drop_last()
    } else {
        seq![(k, v)] + e
    }
}

/// The shape every LRU cache keeps: distinct keys, at most its capacity of
/// entries, and a positive capacity.
pub open spec fn lru_shape(c: LruCache<u64, u64>) -> bool {
    &&& distinct_keys(lru_entries(c))
    &&& lru_entries(c).len() <= lru_capacity(c)
    &&& lru_capacity(c) > 0
}

/// Calls `LruCache::new` with the capacity as a `NonZeroUsize`: an empty
/// cache holding at most `cap` entries.
#[verifier::external_body]
fn lru_new(cap: usize) -> (c: LruCache<u64, u64>)
    requires
        cap > 0,
    ensures
        lru_entries(c) == Seq::<(u64, u64)>::empty(),
        lru_capacity(c) == cap,
        lru_shape(c),
{
    LruCache::new(NonZeroUsize::new(cap).unwrap())
}

/// Calls `LruCache::get`: the value under the key, which becomes the most
/// recently used entry; nothing changes when the key is absent.
#[verifier::external_body]
fn lru_get(c: &mut LruCache<u64, u64>, k: u64) -> (r: Option<u64>)
    ensures
        r == value_of(lru_entries(*old(c)), k),
        lru_entries(*final(c)) == after_get(lru_entries(*old(c)), k),
        lru_capacity(*final(c)) == lru_capacity(*old(c)),
        lru_shape(*final(c)),
{
    c.get(&k).copied()
}

/// Calls `LruCache::put`: the entry is updated in place or inserted, and
/// becomes the most recently used; a new key in a full cache pushes out the
/// least recently used entry. Returns the value the key had before.
#[verifier::external_body]
fn lru_put(c: &mut LruCache<u64, u64>, k: u64, v: u64) -> (r: Option<u64>)
    ensures
        r == value_of(lru_entries(*old(c)), k),
        lru_entries(*final(c)) == after_put(lru_entries(*old(c)), k, v, lru_capacity(*old(c))),
        lru_capacity(*final(c)) == lru_capacity(*old(c)),
        lru_shape(*final(c)),
{
    c.put(k, v)
}

/// Calls `LruCache::len`: the number of entries.
#[verifier::external_body]
fn lru_len(c: &LruCache<u64, u64>) -> (n: usize)
    ensures
        n == lru_entries(*c).len(),
{
    c.len()
}

/// Calls `LruCache::cap`: the capacity.
#[verifier::external_body]
fn lru_cap(c: &LruCache<u64, u64>) -> (n: usize)
    ensures
        n == lru_capacity(*c),
{
    c.cap().get()
}

/// Calls `LruCache::peek_lru`: the least recently used entry, without
/// touching the order; `None` when the cache is empty.
#[verifier::external_body]
fn lru_peek_lru(c: &LruCache<u64, u64>) -> (r: Option<(u64, u64)>)
    ensures
        lru_entries(*c).len() == 0 ==> r is None,
        lru_entries(*c).len() > 0 ==> r == Some(lru_entries(*c).last()),
{
    c.peek_lru().map(|(k, v)| (*k, *v))
}

/// Calls `LruCache::clear`: every entry goes, the capacity stays.
#[verifier::external_body]
fn lru_clear(c: &mut LruCache<u64, u64>)
    ensures
        lru_entries(*final(c)) == Seq::<(u64, u64)>::empty(),
        lru_capacity(*final(c)) == lru_capacity(*old(c)),
        lru_shape(*final(c)),
{
    c.clear()
}

/// A cache key by its contents: query, repository, worktree and limit.
pub type KeyView = (Seq<char>, i64, Option<i64>, usize);

/// The contents of a cache key.
pub open spec fn key_view(k: CacheKey) -> KeyView {
    (k.query@, k.repo_id, k.worktree_id, k.limit)
}

/// Whether two cache keys have the same contents.
fn same_key(a: &CacheKey, b: &CacheKey) -> (r: bool)
    ensures
        r == (key_view(*a) == key_view(*b)),
{
    if a.repo_id != b.repo_id || a.limit != b.limit {
        return false;
    }
    let same_worktree = match (a.worktree_id, b.worktree_id) {
        (Some(x), Some(y)) => x == y,
        (None, None) => true,
        _ => false,
    };
    same_worktree && str_equal(a.query.as_str(), b.query.as_str())
}

/// The state of a result cache: its entries by key, most recently used
/// first, its capacity, and its counters.
pub struct ResultCacheView {
    pub entries: Seq<(KeyView, u64)>,
    pub capacity: nat,
    pub hits: u64,
    pub misses: u64,
    pub evictions: u64,
}

/// LRU cache of search results, keyed by normalized query and parameters.
pub struct ResultCache {
    lru: LruCache<u64, u64>,
    keys: Vec<CacheKey>,
    hits: u64,
    misses: u64,
    evictions: u64,
}

/// The entry of the cache of ids as an entry by key.
pub open spec fn entry_by_key(keys: Seq<CacheKey>, p: (u64, u64)) -> (KeyView, u64) {
    (key_view(keys[p.0 as int]), p.1)
}

/// The entries of the cache of ids as entries by key.
pub open spec fn entries_by_key(keys: Seq<CacheKey>, e: Seq<(u64, u64)>) -> Seq<(KeyView, u64)> {
    e.map_values(|p: (u64, u64)| entry_by_key(keys, p))
}

impl View for ResultCache {
    type V = ResultCacheView;

    closed spec fn view(&self) -> ResultCacheView {
        ResultCacheView {
            entries: entries_by_key(self.keys@, lru_entries(self.lru)),
            capacity: lru_capacity(self.lru),
            hits: self.hits,
            misses: self.misses,
            evictions: self.evictions,
        }
    }
}

/// Mapping ids to keys keeps distinctness, presence and positions.
proof fn lemma_entries_by_key(keys: Seq<CacheKey>, e: Seq<(u64, u64)>)
    requires
        distinct_keys(e),
        forall|i: int| 0 <= i < e.len() ==> (#[trigger] e[i]).0 < keys.len(),
        forall|a: int, b: int| 0 <= a < b < keys.len() ==> key_view(#[trigger] keys[a]) != key_view(#[trigger] keys[b]),
    ensures
        distinct_keys(entries_by_key(keys, e)),
        forall|id: u64| #![trigger has_key(e, id)] id < keys.len() ==> (has_key(e, id) == has_key(entries_by_key(keys, e), key_view(keys[id as int]))),
        forall|id: u64| #![trigger has_key(e, id)] id < keys.len() && has_key(e, id) ==> key_index(e, id) == key_index(entries_by_key(keys, e), key_view(keys[id as int])),
{
    let m = entries_by_key(keys, e);
    assert forall|i: int, j: int| 0 <= i < j < m.len() implies #[trigger] m[i].0 != #[trigger] m[j].0 by {
        assert(m[i] == entry_by_key(keys, e[i]));
        assert(m[j] == entry_by_key(keys, e[j]));
        assert(e[i].0 != e[j].0);
        if e[i].0 < e[j].0 {
            assert(key_view(keys[e[i].0 as int]) != key_view(keys[e[j].0 as int]));
        } else {
            assert(key_view(keys[e[j].0 as int]) != key_view(keys[e[i].0 as int]));
        }
    }
    assert forall|id: u64| #![trigger has_key(e, id)] id < keys.len() implies (has_key(e, id) == has_key(m, key_view(keys[id as int]))) && (has_key(e, id) ==> key_index(e, id) == key_index(m, key_view(keys[id as int]))) by {
        let kv = key_view(keys[id as int]);
        if has_key(e, id) {
            let i = key_index(e, id);
            assert(m[i] == entry_by_key(keys, e[i]));
            assert(m[i].0 == kv);
            let j = key_index(m, kv);
            assert(m[j] == entry_by_key(keys, e[j]));
            if e[j].0 != id {
                if e[j].0 < id {
                    assert(key_view(keys[e[j].0 as int]) != key_view(keys[id as int]));
                } else {
                    assert(key_view(keys[id as int]) != key_view(keys[e[j].0 as int]));
                }
            }
        }
        if has_key(m, kv) {
            let j = key_index(m, kv);
            assert(m[j] == entry_by_key(keys, e[j]));
            if e[j].0 != id {
                if e[j].0 < id {
                    assert(key_view(keys[e[j].0 as int]) != key_view(keys[id as int]));
                } else {
                    assert(key_view(keys[id as int]) != key_view(keys[e[j].0 as int]));
                }
            }
            assert(e[j].0 == id);
        }
    }
}

/// Number of entries of a cache made with `ResultCache::default`.
pub const DEFAULT_CACHE_SIZE: usize = 1000;

/// The count after one more event, wrapping as an atomic counter does.
pub open spec fn bump(n: u64) -> u64 {
    vstd::wrapping::u64_specs::wrapping_add(n, 1)
}

impl ResultCache {
    /// Every cached id names a key, every key's id is cached, and no two
    /// keys have the same contents.
    pub closed spec fn wf(&self) -> bool {
        let e = lru_entries(self.lru);
        &&& lru_shape(self.lru)
        &&& e.len() == self.keys.len()
        &&& forall|i: int| 0 <= i < e.len() ==> (#[trigger] e[i]).0 < self.keys.len()
        &&& forall|id: u64| id < self.keys.len() ==> #[trigger] has_key(e, id)
        &&& forall|a: int, b: int|
            0 <= a < b < self.keys.len() ==> key_view(#[trigger] self.keys@[a]) != key_view(
                #[trigger] self.keys@[b],
            )
    }

    /// What a well-formed cache shows: distinct keys, at most its capacity
    /// of entries, a positive capacity.
    pub proof fn lemma_wf_view(&self)
        requires
            self.wf(),
        ensures
            distinct_keys(self@.entries),
            self@.entries.len() <= self@.capacity,
            self@.capacity > 0,
    {
        lemma_entries_by_key(self.keys@, lru_entries(self.lru));
    }

    /// An empty cache holding at most `capacity` entries, its counters at
    /// zero.
    pub fn new(capacity: usize) -> (c: Self)
        requires
            capacity > 0,
        ensures
            c.wf(),
            c@ == (ResultCacheView {
                entries: Seq::empty(),
                capacity: capacity as nat,
                hits: 0,
                misses: 0,
                evictions: 0,
            }),
    {
        let c = ResultCache { lru: lru_new(capacity), keys: Vec::new(), hits: 0, misses: 0, evictions: 0 };
        assert(c@.entries =~= Seq::<(KeyView, u64)>::empty());
        c
    }

    /// The id of a key with the same contents, if one is cached.
    fn find_key(&self, key: &CacheKey) -> (r: Option<usize>)
        ensures
            match r {
                Some(id) => id < self.keys.len() && key_view(self.keys@[id as int]) == key_view(*key),
                None => forall|j: int| 0 <= j < self.keys.len() ==> key_view(#[trigger] self.keys@[j]) != key_view(*key),
            },
    {
        let mut j: usize = 0;
        while j < self.keys.len()
            invariant
                j <= self.keys.len(),
                forall|q: int| 0 <= q < j ==> key_view(#[trigger] self.keys@[q]) != key_view(*key),
            decreases self.keys.len() - j,
        {
            if same_key(&self.keys[j], key) {
                return Some(j);
            }
            j = j + 1;
        }
        None
    }

    /// Look a key up: its value, which becomes the most recently used entry,
    /// counted as a hit; or nothing, counted as a miss.
    pub fn get(&mut self, key: &CacheKey) -> (r: Option<u64>)
        requires
            old(self).wf(),
        ensures
            final(self).wf(),
            r == value_of(old(self)@.entries, key_view(*key)),
            final(self)@.entries == after_get(old(self)@.entries, key_view(*key)),
            final(self)@.capacity == old(self)@.capacity,
            final(self)@.hits == if r is Some { bump(old(self)@.hits) } else { old(self)@.hits },
            final(self)@.misses == if r is Some { old(self)@.misses } else { bump(old(self)@.misses) },
            final(self)@.evictions == old(self)@.evictions,
    {
        let ghost kv = key_view(*key);
        let ghost e = lru_entries(self.lru);
        let ghost keys = self.keys@;
        proof {
            lemma_entries_by_key(keys, e);
        }
        match self.find_key(key) {
            Some(id) => {
                let ghost i = key_index(e, id as u64);
                assert(has_key(e, id as u64));
                let r = lru_get(&mut self.lru, id as u64);
                self.hits = self.hits.wrapping_add(1);
                proof {
                    let e2 = lru_entries(self.lru);
                    let m = entries_by_key(keys, e);
                    assert(m[i] == entry_by_key(keys, e[i]));
                    assert(entries_by_key(keys, e2) =~= seq![m[i]] + m.remove(i));
                    assert forall|id2: u64| id2 < keys.len() implies #[trigger] has_key(e2, id2) by {
                        assert(has_key(e, id2));
                        let j = choose|j: int| 0 <= j < e.len() && #[trigger] e[j].0 == id2;
                        if j == i {
                            assert(e2[0].0 == id2);
                        } else if j < i {
                            assert(e2[j + 1].0 == id2);
                        } else {
                            assert(e2[j].0 == id2);
                        }
                    }
                    assert forall|t: int| 0 <= t < e2.len() implies (#[trigger] e2[t]).0 < keys.len() by {
                        if t == 0 {
                        } else if t - 1 < i {
                            assert(e2[t] == e[t - 1]);
                        } else {
                            assert(e2[t] == e[t]);
                        }
                    }
                }
                r
            },
            None => {
                proof {
                    let m = entries_by_key(keys, e);
                    assert(!has_key(m, kv)) by {
                        if has_key(m, kv) {
                            let t = key_index(m, kv);
                            assert(m[t] == entry_by_key(keys, e[t]));
                            assert(key_view(keys[e[t].0 as int]) != kv);
                        }
                    }
                }
                self.misses = self.misses.wrapping_add(1);
                None
            },
        }
    }

    /// Put a value under a key: an entry with the key is updated, otherwise
    /// a new entry is added and, when the cache is full, the least recently
    /// used entry is evicted and counted. Either way the entry becomes the
    /// most recently used. Returns the value no longer held: the key's
    /// previous value, or the evicted entry's.
    pub fn put(&mut self, key: CacheKey, value: u64) -> (dropped: Option<u64>)
        requires
            old(self).wf(),
        ensures
            final(self).wf(),
            final(self)@.entries == after_put(
                old(self)@.entries,
                key_view(key),
                value,
                old(self)@.capacity,
            ),
            final(self)@.entries.len() <= final(self)@.capacity,
            dropped == if has_key(old(self)@.entries, key_view(key)) {
                value_of(old(self)@.entries, key_view(key))
            } else if old(self)@.entries.len() >= old(self)@.capacity {
                Some(old(self)@.entries.last().1)
            } else {
                None
            },
            final(self)@.evictions == if !has_key(old(self)@.entries, key_view(key))
                && old(self)@.entries.len() >= old(self)@.capacity {
                bump(old(self)@.evictions)
            } else {
                old(self)@.evictions
            },
            final(self)@.capacity == old(self)@.capacity,
            final(self)@.hits == old(self)@.hits,
            final(self)@.misses == old(self)@.misses,
    {
        let ghost kv = key_view(key);
        let ghost e = lru_entries(self.lru);
        let ghost keys = self.keys@;
        let ghost m = entries_by_key(keys, e);
        proof {
            lemma_entries_by_key(keys, e);
        }
        match self.find_key(&key) {
            Some(id) => {
                let ghost i = key_index(e, id as u64);
                assert(has_key(e, id as u64));
                let r = lru_put(&mut self.lru, id as u64, value);
                proof {
                    let e2 = lru_entries(self.lru);
                    assert(m[i] == entry_by_key(keys, e[i]));
                    assert(entries_by_key(keys, e2) =~= seq![(kv, value)] + m.remove(i));
                    assert forall|id2: u64| id2 < keys.len() implies #[trigger] has_key(e2, id2) by {
                        assert(has_key(e, id2));
                        let j = choose|j: int| 0 <= j < e.len() && #[trigger] e[j].0 == id2;
                        if j == i {
                            assert(e2[0].0 == id2);
                        } else if j < i {
                            assert(e2[j + 1].0 == id2);
                        } else {
                            assert(e2[j].0 == id2);
                        }
                    }
                    assert forall|t: int| 0 <= t < e2.len() implies (#[trigger] e2[t]).0 < keys.len() by {
                        if t == 0 {
                        } else if t - 1 < i {
                            assert(e2[t] == e[t - 1]);
                        } else {
                            assert(e2[t] == e[t]);
                        }
                    }
                }
                r
            },
            None => {
                proof {
                    assert(!has_key(m, kv)) by {
                        if has_key(m, kv) {
                            let t = key_index(m, kv);
                            assert(m[t] == entry_by_key(keys, e[t]));
                            assert(key_view(keys[e[t].0 as int]) != kv);
                        }
                    }
                }
                let len = lru_len(&self.lru);
                let cap = lru_cap(&self.lru);
                if put_evicts(len, cap, false) {
                    let (old_id, old_value) = match lru_peek_lru(&self.lru) {
                        Some(p) => p,
                        None => (0, 0),
                    };
                    let ghost last = e.len() - 1;
                    proof {
                        assert(e[last].0 == old_id);
                        assert(has_key(e, old_id));
                        assert(key_index(e, old_id) == last);
                        assert(old_id < keys.len());
                    }
                    self.keys.set(old_id as usize, key);
                    lru_put(&mut self.lru, old_id, value);
                    self.evictions = self.evictions.wrapping_add(1);
                    proof {
                        let keys2 = self.keys@;
                        let e2 = lru_entries(self.lru);
                        assert(e.remove(last) =~= e.drop_last());
                        assert(e2 == seq![(old_id, value)] + e.drop_last());
                        assert forall|t: int| 0 <= t < e.len() - 1 implies e[t].0 != old_id by {
                            assert(e[t].0 != e[last].0);
                        }
                        assert(entries_by_key(keys2, e2) =~= seq![(kv, value)] + m.drop_last()) by {
                            assert forall|t: int| 0 <= t < e2.len() implies entries_by_key(keys2, e2)[t] == (seq![(kv, value)] + m.drop_last())[t] by {
                                if t > 0 {
                                    assert(e2[t] == e[t - 1]);
                                    assert(e[t - 1].0 != old_id);
                                    assert(keys2[e[t - 1].0 as int] == keys[e[t - 1].0 as int]);
                                    assert(m[t - 1] == entry_by_key(keys, e[t - 1]));
                                }
                            }
                        }
                        assert forall|id2: u64| id2 < keys2.len() implies #[trigger] has_key(e2, id2) by {
                            if id2 == old_id {
                                assert(e2[0].0 == id2);
                            } else {
                                assert(has_key(e, id2));
                                let j = choose|j: int| 0 <= j < e.len() && #[trigger] e[j].0 == id2;
                                assert(j != last);
                                assert(e2[j + 1].0 == id2);
                            }
                        }
                        assert forall|t: int| 0 <= t < e2.len() implies (#[trigger] e2[t]).0 < keys2.len() by {
                            if t > 0 {
                                assert(e2[t] == e[t - 1]);
                            }
                        }
                        assert forall|a: int, b: int| 0 <= a < b < keys2.len() implies key_view(#[trigger] keys2[a]) != key_view(#[trigger] keys2[b]) by {
                            if a == old_id {
                                assert(key_view(keys[b]) != kv);
                            } else if b == old_id {
                                assert(key_view(keys[a]) != kv);
                            } else {
                                assert(keys2[a] == keys[a] && keys2[b] == keys[b]);
                            }
                        }
                    }
                    Some(old_value)
                } else {
                    let id = self.keys.len();
                    self.keys.push(key);
                    proof {
                        assert(!has_key(e, id as u64)) by {
                            if has_key(e, id as u64) {
                                let t = key_index(e, id as u64);
                                assert(e[t].0 < keys.len());
                            }
                        }
                    }
                    lru_put(&mut self.lru, id as u64, value);
                    proof {
                        let keys2 = self.keys@;
                        let e2 = lru_entries(self.lru);
                        assert(e2 == seq![(id as u64, value)] + e);
                        assert(entries_by_key(keys2, e2) =~= seq![(kv, value)] + m) by {
                            assert forall|t: int| 0 <= t < e2.len() implies entries_by_key(keys2, e2)[t] == (seq![(kv, value)] + m)[t] by {
                                if t > 0 {
                                    assert(e2[t] == e[t - 1]);
                                    assert(keys2[e[t - 1].0 as int] == keys[e[t - 1].0 as int]);
                                    assert(m[t - 1] == entry_by_key(keys, e[t - 1]));
                                }
                            }
                        }
                        assert forall|id2: u64| id2 < keys2.len() implies #[trigger] has_key(e2, id2) by {
                            if id2 == id as u64 {
                                assert(e2[0].0 == id2);
                            } else {
                                assert(has_key(e, id2));
                                let j = choose|j: int| 0 <= j < e.len() && #[trigger] e[j].0 == id2;
                                assert(e2[j + 1].0 == id2);
                            }
                        }
                        assert forall|t: int| 0 <= t < e2.len() implies (#[trigger] e2[t]).0 < keys2.len() by {
                            if t > 0 {
                                assert(e2[t] == e[t - 1]);
                            }
                        }
                        assert forall|a: int, b: int| 0 <= a < b < keys2.len() implies key_view(#[trigger] keys2[a]) != key_view(#[trigger] keys2[b]) by {
                            if b == id {
                                assert(key_view(keys[a]) != kv);
                            } else {
                                assert(keys2[a] == keys[a] && keys2[b] == keys[b]);
                            }
                        }
                    }
                    None
                }
            },
        }
    }

    /// The cache statistics.
    pub fn stats(&self) -> (s: CacheStats)
        ensures
            s.capacity == self@.capacity,
            s.size == self@.entries.len(),
            s.hits == self@.hits,
            s.misses == self@.misses,
            s.evictions == self@.evictions,
    {
        CacheStats {
            capacity: lru_cap(&self.lru),
            size: lru_len(&self.lru),
            hits: self.hits,
            misses: self.misses,
            evictions: self.evictions,
        }
    }

    /// Remove every entry; the counters stay.
    pub fn clear(&mut self)
        requires
            old(self).wf(),
        ensures
            final(self).wf(),
            final(self)@ == (ResultCacheView { entries: Seq::empty(), ..old(self)@ }),
    {
        lru_clear(&mut self.lru);
        self.keys.clear();
        assert(self@.entries =~= Seq::<(KeyView, u64)>::empty());
    }

    /// Set every counter back to zero; the entries stay.
    pub fn reset_stats(&mut self)
        requires
            old(self).wf(),
        ensures
            final(self).wf(),
            final(self)@ == (ResultCacheView { hits: 0, misses: 0, evictions: 0, ..old(self)@ }),
    {
        self.hits = 0;
        self.misses = 0;
        self.evictions = 0;
    }
}

impl Default for ResultCache {
    /// An empty cache of 1000 entries.
    fn default() -> (c: Self)
        ensures
            c.wf(),
            c@ == (ResultCacheView {
                entries: Seq::empty(),
                capacity: DEFAULT_CACHE_SIZE as nat,
                hits: 0,
                misses: 0,
                evictions: 0,
            }),
    {
        Self::new(DEFAULT_CACHE_SIZE)
    }
}

/// Law: what a put stores is what the next lookup of the key gives back,
/// that lookup changes nothing, and a put keeps the keys distinct and the
/// cache within its capacity.
#[verifier::spinoff_prover]
#[verifier::rlimit(40)]
pub proof fn lemma_get_after_put<K>(e: Seq<(K, u64)>, k: K, v: u64, cap: nat)
    requires
        distinct_keys(e),
        e.len() <= cap,
        cap > 0,
    ensures
        distinct_keys(after_put(e, k, v, cap)),
        after_put(e, k, v, cap).len() <= cap,
        value_of(after_put(e, k, v, cap), k) == Some(v),
        after_get(after_put(e, k, v, cap), k) == after_put(e, k, v, cap),
{
    let p = after_put(e, k, v, cap);
    let rest = p.drop_first();
    assert(p[0] == (k, v));
    assert(p =~= seq![(k, v)] + rest);
    if has_key(e, k) {
        let i = key_index(e, k);
        assert(rest =~= e.remove(i));
        assert forall|t: int| 0 <= t < rest.len() implies #[trigger] rest[t].0 != k by {
            if t < i {
                assert(rest[t] == e[t]);
                assert(e[t].0 != e[i].0);
            } else {
                assert(rest[t] == e[t + 1]);
                assert(e[i].0 != e[t + 1].0);
            }
        }
        assert forall|a: int, b: int| 0 <= a < b < rest.len() implies #[trigger] rest[a].0
            != #[trigger] rest[b].0 by {
            let a2 = if a < i { a } else { a + 1 };
            let b2 = if b < i { b } else { b + 1 };
            assert(rest[a] == e[a2]);
            assert(rest[b] == e[b2]);
            assert(e[a2].0 != e[b2].0);
        }
    } else {
        let base = if e.len() >= cap { e.drop_last() } else { e };
        assert(rest =~= base);
        assert forall|t: int| 0 <= t < rest.len() implies #[trigger] rest[t].0 != k by {
            assert(rest[t] == e[t]);
        }
        assert forall|a: int, b: int| 0 <= a < b < rest.len() implies #[trigger] rest[a].0
            != #[trigger] rest[b].0 by {
            assert(rest[a] == e[a]);
            assert(rest[b] == e[b]);
        }
    }
    assert forall|a: int, b: int| 0 <= a < b < p.len() implies #[trigger] p[a].0
        != #[trigger] p[b].0 by {
        assert(p[b] == rest[b - 1]);
        if a > 0 {
            assert(p[a] == rest[a - 1]);
        }
    }
    assert(has_key(p, k)) by {
        assert(p[0].0 == k);
    }
    let j = key_index(p, k);
    if j != 0 {
        assert(p[j] == rest[j - 1]);
    }
    assert(j == 0);
    assert(seq![p[0]] + p.remove(0) =~= p);
}

} // verus!
