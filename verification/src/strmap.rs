//! A small string-keyed map kept as an ordered list of entries.
//!
//! Keys are compared by their characters; inserting a key that is present
//! replaces its value in place, so each key occurs at most once.

use vstd::prelude::*;
use crate::text::str_equal;

verus! {

/// The value bound to `k`: the first entry with that key.
pub open spec fn lookup<V>(es: Seq<(Seq<char>, V)>, k: Seq<char>) -> Option<V>
    decreases es.len(),
{
    if es.len() == 0 {
        None
    } else if es[0].0 == k {
        Some(es[0].1)
    } else {
        lookup(es.drop_first(), k)
    }
}

/// Bind `k` to `v`: the first entry with key `k` gets the new value, and if
/// there is none a new entry is appended.
pub open spec fn update<V>(es: Seq<(Seq<char>, V)>, k: Seq<char>, v: V) -> Seq<(Seq<char>, V)>
    decreases es.len(),
{
    if es.len() == 0 {
        seq![(k, v)]
    } else if es[0].0 == k {
        es.update(0, (k, v))
    } else {
        seq![es[0]] + update(es.drop_first(), k, v)
    }
}

/// The keys of the entries, in order.
pub open spec fn keys_of<V>(es: Seq<(Seq<char>, V)>) -> Seq<Seq<char>> {
    es.map_values(|e: (Seq<char>, V)| e.0)
}

/// The key of the first entry with key `k` is at `i`.
pub proof fn lemma_lookup_at<V>(es: Seq<(Seq<char>, V)>, k: Seq<char>, i: int)
    requires
        0 <= i < es.len(),
        es[i].0 == k,
        forall|j: int| 0 <= j < i ==> (#[trigger] es[j]).0 != k,
    ensures
        lookup(es, k) == Some(es[i].1),
    decreases i,
{
    if i > 0 {
        lemma_lookup_at(es.drop_first(), k, i - 1);
    }
}

/// No entry has key `k`.
pub proof fn lemma_lookup_absent<V>(es: Seq<(Seq<char>, V)>, k: Seq<char>)
    requires
        forall|j: int| 0 <= j < es.len() ==> (#[trigger] es[j]).0 != k,
    ensures
        lookup(es, k) == None::<V>,
    decreases es.len(),
{
    if es.len() > 0 {
        assert(es[0].0 != k);
        lemma_lookup_absent(es.drop_first(), k);
    }
}

/// Binding replaces the first entry with that key, in place.
pub proof fn lemma_update_at<V>(es: Seq<(Seq<char>, V)>, k: Seq<char>, v: V, i: int)
    requires
        0 <= i < es.len(),
        es[i].0 == k,
        forall|j: int| 0 <= j < i ==> (#[trigger] es[j]).0 != k,
    ensures
        update(es, k, v) == es.update(i, (k, v)),
    decreases i,
{
    if i > 0 {
        lemma_update_at(es.drop_first(), k, v, i - 1);
        assert(update(es, k, v) =~= es.update(i, (k, v)));
    }
}

/// Binding a new key appends an entry.
pub proof fn lemma_update_absent<V>(es: Seq<(Seq<char>, V)>, k: Seq<char>, v: V)
    requires
        forall|j: int| 0 <= j < es.len() ==> (#[trigger] es[j]).0 != k,
    ensures
        update(es, k, v) == es.push((k, v)),
    decreases es.len(),
{
    if es.len() > 0 {
        assert(es[0].0 != k);
        lemma_update_absent(es.drop_first(), k, v);
        assert(update(es, k, v) =~= es.push((k, v)));
    }
}

/// Law: after binding `k` to `v`, `k` gives `v` and every other key gives
/// what it gave before.
pub proof fn lemma_lookup_update<V>(es: Seq<(Seq<char>, V)>, k: Seq<char>, v: V, k2: Seq<char>)
    ensures
        lookup(update(es, k, v), k2) == if k2 == k {
            Some(v)
        } else {
            lookup(es, k2)
        },
    decreases es.len(),
{
    let u = update(es, k, v);
    if es.len() > 0 && es[0].0 != k {
        lemma_lookup_update(es.drop_first(), k, v, k2);
        assert(u.drop_first() =~= update(es.drop_first(), k, v));
        assert(u[0] == es[0]);
        if k2 == es[0].0 {
            assert(lookup(u, k2) == Some(es[0].1));
        } else {
            assert(lookup(u, k2) == lookup(update(es.drop_first(), k, v), k2));
        }
    } else if es.len() > 0 {
        assert(u.drop_first() =~= es.drop_first());
        assert(u[0] == (k, v));
        if k2 != k {
            assert(lookup(u, k2) == lookup(u.drop_first(), k2));
        }
    } else {
        assert(u.drop_first() =~= Seq::<(Seq<char>, V)>::empty());
        assert(u[0] == (k, v));
        if k2 != k {
            assert(lookup(u, k2) == lookup(u.drop_first(), k2));
            assert(lookup(u.drop_first(), k2) == None::<V>);
        }
    }
}


/// The entries with each value transformed by `f`.
pub open spec fn map_entries<V, W>(es: Seq<(Seq<char>, V)>, f: spec_fn(V) -> W) -> Seq<
    (Seq<char>, W),
> {
    es.map_values(|e: (Seq<char>, V)| (e.0, f(e.1)))
}

/// Transforming values commutes with binding.
pub proof fn lemma_update_map<V, W>(es: Seq<(Seq<char>, V)>, k: Seq<char>, v: V, f: spec_fn(V) -> W)
    ensures
        map_entries(update(es, k, v), f) == update(map_entries(es, f), k, f(v)),
    decreases es.len(),
{
    let m = map_entries(es, f);
    if es.len() == 0 {
        assert(map_entries(update(es, k, v), f) =~= update(m, k, f(v)));
    } else if es[0].0 == k {
        assert(map_entries(update(es, k, v), f) =~= update(m, k, f(v)));
    } else {
        lemma_update_map(es.drop_first(), k, v, f);
        assert(m.drop_first() =~= map_entries(es.drop_first(), f));
        assert(map_entries(update(es, k, v), f) =~= update(m, k, f(v)));
    }
}

/// Transforming values commutes with lookup.
pub proof fn lemma_lookup_map<V, W>(es: Seq<(Seq<char>, V)>, k: Seq<char>, f: spec_fn(V) -> W)
    ensures
        lookup(map_entries(es, f), k) == match lookup(es, k) {
            Some(v) => Some(f(v)),
            None => None,
        },
    decreases es.len(),
{
    if es.len() > 0 && es[0].0 != k {
        lemma_lookup_map(es.drop_first(), k, f);
        assert(map_entries(es, f).drop_first() =~= map_entries(es.drop_first(), f));
    }
}

/// A string-keyed map kept as an ordered list of entries.
#[derive(Debug, Clone)]
pub struct StrMap<V> {
    entries: Vec<(String, V)>,
}

impl<V> StrMap<V> {
    /// The entries, each key by its characters, in insertion order.
    pub closed spec fn entries(&self) -> Seq<(Seq<char>, V)> {
        self.entries@.map_values(|e: (String, V)| (e.0@, e.1))
    }

    /// An empty map.
    pub fn new() -> (m: Self)
        ensures
            m.entries() == Seq::<(Seq<char>, V)>::empty(),
    {
        let m = StrMap { entries: Vec::new() };
        assert(m.entries() =~= Seq::<(Seq<char>, V)>::empty());
        m
    }

    /// The number of entries.
    pub fn len(&self) -> (n: usize)
        ensures
            n == self.entries().len(),
    {
        self.entries.len()
    }

    /// Whether there are no entries.
    pub fn is_empty(&self) -> (b: bool)
        ensures
            b == (self.entries().len() == 0),
    {
        self.entries.len() == 0
    }

    /// The position of the first entry with the given key.
    pub fn index_of(&self, key: &str) -> (r: Option<usize>)
        ensures
            match r {
                Some(i) => i < self.entries().len() && self.entries()[i as int].0 == key@ && (
                forall|j: int| 0 <= j < i ==> (#[trigger] self.entries()[j]).0 != key@),
                None => forall|j: int|
                    0 <= j < self.entries().len() ==> (#[trigger] self.entries()[j]).0 != key@,
            },
    {
        let mut i: usize = 0;
        while i < self.entries.len()
            invariant
                i <= self.entries.len(),
                forall|j: int| 0 <= j < i ==> (#[trigger] self.entries()[j]).0 != key@,
            decreases self.entries.len() - i,
        {
            if str_equal(self.entries[i].0.as_str(), key) {
                return Some(i);
            }
            i = i + 1;
        }
        None
    }

    /// The value bound to a key.
    pub fn get(&self, key: &str) -> (r: Option<&V>)
        ensures
            match r {
                Some(v) => lookup(self.entries(), key@) == Some(*v),
                None => lookup(self.entries(), key@) == None::<V>,
            },
    {
        match self.index_of(key) {
            Some(i) => {
                proof {
                    lemma_lookup_at(self.entries(), key@, i as int);
                }
                Some(&self.entries[i].1)
            },
            None => {
                proof {
                    lemma_lookup_absent(self.entries(), key@);
                }
                None
            },
        }
    }

    /// Whether a key is bound.
    pub fn contains_key(&self, key: &str) -> (b: bool)
        ensures
            b == lookup(self.entries(), key@).is_some(),
    {
        self.get(key).is_some()
    }

    /// Bind a key to a value.
    pub fn insert(&mut self, key: String, value: V)
        ensures
            final(self).entries() == update(old(self).entries(), key@, value),
    {
        let ghost k = key@;
        match self.index_of(key.as_str()) {
            Some(i) => {
                proof {
                    lemma_update_at(self.entries(), k, value, i as int);
                }
                self.entries.set(i, (key, value));
                assert(self.entries() =~= update(old(self).entries(), k, value));
            },
            None => {
                proof {
                    lemma_update_absent(self.entries(), k, value);
                }
                self.entries.push((key, value));
                assert(self.entries() =~= update(old(self).entries(), k, value));
            },
        }
    }

    /// The keys, in order.
    pub fn keys(&self) -> (ks: Vec<String>)
        ensures
            crate::order::views(ks@) == keys_of(self.entries()),
    {
        let mut ks: Vec<String> = Vec::new();
        let mut i: usize = 0;
        while i < self.entries.len()
            invariant
                i <= self.entries.len(),
                crate::order::views(ks@) == keys_of(self.entries()).take(i as int),
            decreases self.entries.len() - i,
        {
            let k = self.entries[i].0.clone();
            let ghost before = ks@;
            assert(k@ == keys_of(self.entries())[i as int]);
            ks.push(k);
            assert(crate::order::views(ks@) =~= crate::order::views(before).push(k@));
            assert(crate::order::views(ks@) =~= keys_of(self.entries()).take(i + 1));
            i = i + 1;
        }
        assert(keys_of(self.entries()).take(self.entries.len() as int) =~= keys_of(self.entries()));
        ks
    }

    /// The key of the entry at a position.
    pub fn key_at(&self, i: usize) -> (k: &String)
        requires
            i < self.entries().len(),
        ensures
            k@ == self.entries()[i as int].0,
    {
        &self.entries[i].0
    }

    /// The value of the entry at a position.
    pub fn value_at(&self, i: usize) -> (v: &V)
        requires
            i < self.entries().len(),
        ensures
            *v == self.entries()[i as int].1,
    {
        &self.entries[i].1
    }

    /// Remove every entry.
    pub fn clear(&mut self)
        ensures
            final(self).entries() == Seq::<(Seq<char>, V)>::empty(),
    {
        self.entries.clear();
        assert(self.entries() =~= Seq::<(Seq<char>, V)>::empty());
    }
}

impl<V: Copy> StrMap<V> {
    /// A copy of the map, entry for entry.
    pub fn copy(&self) -> (m: Self)
        ensures
            m.entries() == self.entries(),
    {
        let mut entries: Vec<(String, V)> = Vec::new();
        let mut i: usize = 0;
        while i < self.entries.len()
            invariant
                i <= self.entries.len(),
                entries@.map_values(|e: (String, V)| (e.0@, e.1)) == self.entries().take(i as int),
            decreases self.entries.len() - i,
        {
            let key = self.entries[i].0.clone();
            let value = self.entries[i].1;
            assert(key@ == self.entries()[i as int].0);
            assert(value == self.entries()[i as int].1);
            let ghost before = entries@;
            entries.push((key, value));
            assert(entries@.map_values(|e: (String, V)| (e.0@, e.1)) =~= before.map_values(
                |e: (String, V)| (e.0@, e.1),
            ).push((key@, value)));
            assert(entries@.map_values(|e: (String, V)| (e.0@, e.1)) =~= self.entries().take(
                i + 1,
            ));
            i = i + 1;
        }
        let m = StrMap { entries };
        assert(m.entries() =~= self.entries());
        m
    }
}

} // verus!
