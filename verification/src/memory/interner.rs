//! String interning: each distinct string is stored once and shared.

use vstd::prelude::*;
use std::sync::Arc;
use crate::search::expander::byte_len;
use vstd::hash_map::StringHashMap;
use crate::order::views;

verus! {

/// Statistics for string interning.
#[derive(Debug, Clone, Copy, PartialEq, Eq, Structural)]
pub struct InternerStats {
    /// Total number of intern calls.
    pub total_interns: usize,
    /// Number of calls that found the string interned already.
    pub hits: usize,
    /// Number of calls that interned a new string.
    pub misses: usize,
    /// Number of unique strings currently interned.
    pub unique_strings: usize,
}

impl Default for InternerStats {
    fn default() -> (s: Self)
        ensures
            s == (InternerStats { total_interns: 0, hits: 0, misses: 0, unique_strings: 0 }),
    {
        InternerStats { total_interns: 0, hits: 0, misses: 0, unique_strings: 0 }
    }
}

/// The state of an interner: the strings interned, in order, and the
/// statistics.
pub struct InternerView {
    pub strings: Seq<Seq<char>>,
    pub stats: InternerStats,
}

/// Calls `Arc::clone`: another pointer to the same allocation, so the value
/// seen through it is the same.
#[verifier::external_body]
fn share(a: &Arc<String>) -> (r: Arc<String>)
    ensures
        r == *a,
{
    Arc::clone(a)
}

/// Estimated bytes per entry besides the string: map entry and `Arc`
/// overhead.
pub const ENTRY_OVERHEAD_BYTES: usize = 64;

/// The estimated memory of the interned strings.
pub open spec fn estimated_bytes(strings: Seq<Seq<char>>) -> int
    decreases strings.len(),
{
    if strings.len() == 0 {
        0
    } else {
        estimated_bytes(strings.drop_last()) + ENTRY_OVERHEAD_BYTES + byte_len(strings.last())
    }
}

/// The statistics after a call that found the string interned.
pub open spec fn stats_after_hit(s: InternerStats) -> InternerStats {
    InternerStats {
        total_interns: (s.total_interns + 1) as usize,
        hits: (s.hits + 1) as usize,
        ..s
    }
}

/// The statistics after a call that interned a new string, `n` being the
/// number of strings then held.
pub open spec fn stats_after_miss(s: InternerStats, n: nat) -> InternerStats {
    InternerStats {
        total_interns: (s.total_interns + 1) as usize,
        misses: (s.misses + 1) as usize,
        unique_strings: n as usize,
        ..s
    }
}

/// The state after interning `s`: a string held already is a hit, another
/// one is appended as a miss.
pub open spec fn after_intern(v: InternerView, s: Seq<char>) -> InternerView {
    if v.strings.contains(s) {
        InternerView { stats: stats_after_hit(v.stats), ..v }
    } else {
        InternerView {
            strings: v.strings.push(s),
            stats: stats_after_miss(v.stats, v.strings.len() + 1),
        }
    }
}

/// Interning `s` keeps the counters in range.
pub open spec fn intern_fits(v: InternerView, s: Seq<char>) -> bool {
    &&& v.stats.total_interns + 1 <= usize::MAX
    &&& v.strings.contains(s) ==> v.stats.hits + 1 <= usize::MAX
    &&& !v.strings.contains(s) ==> v.stats.misses + 1 <= usize::MAX && v.strings.len() + 1
        <= usize::MAX
}

/// String interner that deduplicates strings: a hash map from each string
/// to its shared copy, and the strings in the order they were first seen.
pub struct StringInterner {
    map: StringHashMap<Arc<String>>,
    keys: Vec<String>,
    stats: InternerStats,
}

impl View for StringInterner {
    type V = InternerView;

    closed spec fn view(&self) -> InternerView {
        InternerView { strings: views(self.keys@), stats: self.stats }
    }
}

impl StringInterner {
    /// Every entry shares its own key's text, no key occurs twice, every
    /// call is counted as a hit or a miss, and the unique count is the number
    /// of strings held.
    pub closed spec fn wf(&self) -> bool {
        &&& self.stats.hits + self.stats.misses == self.stats.total_interns
        &&& self.stats.unique_strings == self.keys.len()
        &&& views(self.keys@).no_duplicates()
        &&& forall|k: Seq<char>|
            #![trigger self.map@.contains_key(k)]
            #![trigger views(self.keys@).contains(k)]
            self.map@.contains_key(k) <==> views(self.keys@).contains(k)
        &&& forall|k: Seq<char>| #[trigger] self.map@.contains_key(k) ==> self.map@[k]@ == k
    }

    /// An empty interner.
    pub fn new() -> (t: Self)
        ensures
            t.wf(),
            t@.strings.len() == 0,
            t@.stats == (InternerStats { total_interns: 0, hits: 0, misses: 0, unique_strings: 0 }),
    {
        let t = StringInterner {
            map: StringHashMap::new(),
            keys: Vec::new(),
            stats: InternerStats::default(),
        };
        assert(views(t.keys@) =~= Seq::<Seq<char>>::empty());
        t
    }

    /// An empty interner; the expected number of strings is a hint.
    pub fn with_capacity(capacity: usize) -> (t: Self)
        ensures
            t.wf(),
            t@.strings.len() == 0,
            t@.stats == (InternerStats { total_interns: 0, hits: 0, misses: 0, unique_strings: 0 }),
    {
        Self::new()
    }

    /// Intern a string: the shared copy of it, stored on first use.
    pub fn intern(&mut self, s: &str) -> (r: Arc<String>)
        requires
            old(self).wf(),
            intern_fits(old(self)@, s@),
        ensures
            final(self).wf(),
            r@ == s@,
            final(self)@ == after_intern(old(self)@, s@),
    {
        let ghost keys = views(self.keys@);
        match self.map.get(s) {
            Some(a) => {
                let arc = share(a);
                self.stats.total_interns = self.stats.total_interns + 1;
                self.stats.hits = self.stats.hits + 1;
                arc
            },
            None => {
                let arc = Arc::new(s.to_owned());
                let stored = share(&arc);
                self.map.insert(s.to_owned(), stored);
                self.keys.push(s.to_owned());
                self.stats.total_interns = self.stats.total_interns + 1;
                self.stats.misses = self.stats.misses + 1;
                self.stats.unique_strings = self.keys.len();
                proof {
                    let nk = views(self.keys@);
                    assert(nk =~= keys.push(s@));
                    assert(nk[keys.len() as int] == s@);
                    assert forall|k: Seq<char>|
                        #![trigger self.map@.contains_key(k)]
                        #![trigger nk.contains(k)]
                        self.map@.contains_key(k) <==> nk.contains(k) by {
                        if nk.contains(k) && k != s@ {
                            let w = choose|w: int| 0 <= w < nk.len() && nk[w] == k;
                            assert(keys[w] == k);
                        }
                        if keys.contains(k) {
                            let w = choose|w: int| 0 <= w < keys.len() && keys[w] == k;
                            assert(nk[w] == k);
                        }
                    }
                }
                arc
            },
        }
    }

    /// Intern an owned string.
    pub fn intern_owned(&mut self, s: String) -> (r: Arc<String>)
        requires
            old(self).wf(),
            intern_fits(old(self)@, s@),
        ensures
            final(self).wf(),
            r@ == s@,
            final(self)@ == after_intern(old(self)@, s@),
    {
        self.intern(s.as_str())
    }

    /// The interning statistics.
    pub fn stats(&self) -> (s: InternerStats)
        ensures
            s == self@.stats,
    {
        self.stats
    }

    /// The number of unique strings interned.
    pub fn len(&self) -> (n: usize)
        ensures
            n == self@.strings.len(),
    {
        self.keys.len()
    }

    /// Whether no string is interned.
    pub fn is_empty(&self) -> (b: bool)
        ensures
            b == (self@.strings.len() == 0),
    {
        self.keys.len() == 0
    }

    /// Forget every interned string; the counts of calls stay.
    pub fn clear(&mut self)
        ensures
            old(self).wf() ==> final(self).wf(),
            final(self)@.strings.len() == 0,
            final(self)@.stats == (InternerStats { unique_strings: 0, ..old(self)@.stats }),
    {
        self.map.clear();
        self.keys = Vec::new();
        self.stats.unique_strings = 0;
        assert(views(self.keys@) =~= Seq::<Seq<char>>::empty());
    }

    /// Estimated memory of the interned strings: each string's bytes plus
    /// a fixed overhead per entry.
    pub fn estimated_memory_bytes(&self) -> (n: usize)
        requires
            estimated_bytes(self@.strings) <= usize::MAX,
        ensures
            n == estimated_bytes(self@.strings),
    {
        let ghost keys = self@.strings;
        let mut total: usize = 0;
        let mut i: usize = 0;
        proof {
            lemma_estimated_bytes_monotone(keys, 0, keys.len() as int);
        }
        while i < self.keys.len()
            invariant
                i <= self.keys.len(),
                keys == self@.strings,
                keys.len() == self.keys.len(),
                estimated_bytes(keys) <= usize::MAX,
                total == estimated_bytes(keys.take(i as int)),
            decreases self.keys.len() - i,
        {
            let key = &self.keys[i];
            proof {
                assert(keys.take(i + 1).drop_last() =~= keys.take(i as int));
                assert(keys[i as int] == key@);
                lemma_estimated_bytes_monotone(keys, i + 1, keys.len() as int);
                assert(keys.take(keys.len() as int) =~= keys);
            }
            total = total + ENTRY_OVERHEAD_BYTES + key.as_str().len();
            i = i + 1;
        }
        assert(keys.take(keys.len() as int) =~= keys);
        total
    }
}

/// A longer prefix of the strings never has a smaller estimate.
proof fn lemma_estimated_bytes_monotone(strings: Seq<Seq<char>>, i: int, j: int)
    requires
        0 <= i <= j <= strings.len(),
    ensures
        estimated_bytes(strings.take(i)) <= estimated_bytes(strings.take(j)),
    decreases j - i,
{
    if i < j {
        lemma_estimated_bytes_monotone(strings, i, j - 1);
        assert(strings.take(j).drop_last() =~= strings.take(j - 1));
    }
}

impl Default for StringInterner {
    fn default() -> (t: Self)
        ensures
            t.wf(),
            t@.strings.len() == 0,
            t@.stats == (InternerStats { total_interns: 0, hits: 0, misses: 0, unique_strings: 0 }),
    {
        Self::new()
    }
}

/// Law: interning never stores a string twice, and interning a string held
/// already changes nothing but the hit counts.
pub proof fn lemma_intern_deduplicates(v: InternerView, s: Seq<char>)
    requires
        v.strings.no_duplicates(),
    ensures
        after_intern(v, s).strings.no_duplicates(),
        after_intern(v, s).strings.contains(s),
        v.strings.contains(s) ==> after_intern(v, s).strings == v.strings,
{
    if !v.strings.contains(s) {
        assert(v.strings.push(s)[v.strings.len() as int] == s);
    }
}

/// Law: interning the same string twice in a row stores it once; the second
/// call is a hit.
pub proof fn lemma_intern_twice(v: InternerView, s: Seq<char>)
    ensures
        after_intern(after_intern(v, s), s).strings == after_intern(v, s).strings,
        after_intern(after_intern(v, s), s).stats == stats_after_hit(after_intern(v, s).stats),
{
    assert(after_intern(v, s).strings.contains(s)) by {
        if !v.strings.contains(s) {
            assert(v.strings.push(s)[v.strings.len() as int] == s);
        }
    }
}

/// Law: in every state of an interner (every interner is well formed from
/// its creation on, through interning and clearing), every intern call is
/// counted as a hit or a miss, the unique count is the number of strings
/// held, and no string is held twice.
pub proof fn lemma_interner_counts_balanced(t: &StringInterner)
    requires
        t.wf(),
    ensures
        t@.stats.hits + t@.stats.misses == t@.stats.total_interns,
        t@.stats.unique_strings == t@.strings.len(),
        t@.strings.no_duplicates(),
{
}

} // verus!
