//! Identity of chunks across worktrees and the deduplication settings.

use vstd::prelude::*;
use crate::text::str_equal;

verus! {

/// The identity of a chunk across worktrees: path, symbol and first line.
#[derive(Debug, Clone, Hash, PartialEq, Eq)]
pub struct ChunkIdentity {
    pub relpath: String,
    pub symbol_name: String,
    pub start_line: i32,
}

impl ChunkIdentity {
    /// The identity of a chunk; a chunk without a symbol has the empty name.
    pub fn from_parts(relpath: &str, symbol_name: &Option<String>, start_line: i32) -> (id: Self)
        ensures
            id.relpath@ == relpath@,
            id.symbol_name@ == match symbol_name {
                Some(s) => s@,
                None => Seq::<char>::empty(),
            },
            id.start_line == start_line,
    {
        let symbol = match symbol_name {
            Some(s) => s.as_str().to_owned(),
            None => String::new(),
        };
        ChunkIdentity { relpath: relpath.to_owned(), symbol_name: symbol, start_line }
    }
}

/// How the representative of a group of duplicates is chosen.
#[derive(Debug, Clone, Copy, PartialEq, Eq, Structural)]
pub enum SelectionStrategy {
    /// Keep the highest-scoring result.
    HighestScore,
}

impl Default for SelectionStrategy {
    fn default() -> (s: Self)
        ensures
            s == SelectionStrategy::HighestScore,
    {
        SelectionStrategy::HighestScore
    }
}

/// Deduplication settings.
#[derive(Debug, Clone, Copy, PartialEq, Eq, Structural)]
pub struct DeduplicationConfig {
    /// Whether duplicates are removed.
    pub enabled: bool,
    /// How the kept result is chosen.
    pub strategy: SelectionStrategy,
}

impl Default for DeduplicationConfig {
    /// Enabled, keeping the highest-scoring result.
    fn default() -> (c: Self)
        ensures
            c == (DeduplicationConfig { enabled: true, strategy: SelectionStrategy::HighestScore }),
    {
        DeduplicationConfig { enabled: true, strategy: SelectionStrategy::HighestScore }
    }
}

/// A search result as deduplication sees it: its identity and an order key
/// for its score (a larger key is a higher score).
#[derive(Debug, Clone)]
pub struct RankedEntry {
    pub relpath: String,
    pub symbol_name: Option<String>,
    pub start_line: i32,
    pub rank: u64,
}

/// The characters of an optional string.
pub open spec fn opt_chars(s: Option<String>) -> Option<Seq<char>> {
    match s {
        Some(t) => Some(t@),
        None => None,
    }
}

/// Two entries are duplicates when path, symbol and first line agree.
pub open spec fn same_identity(a: RankedEntry, b: RankedEntry) -> bool {
    &&& a.relpath@ == b.relpath@
    &&& opt_chars(a.symbol_name) == opt_chars(b.symbol_name)
    &&& a.start_line == b.start_line
}

/// Entry `i` is the one kept of its group of duplicates: no duplicate ranks
/// higher, and no earlier duplicate ranks as high.
pub open spec fn is_representative(s: Seq<RankedEntry>, i: int) -> bool {
    &&& 0 <= i < s.len()
    &&& forall|j: int|
        0 <= j < s.len() && #[trigger] same_identity(s[j], s[i]) ==> (s[j].rank < s[i].rank || (
        s[j].rank == s[i].rank && i <= j))
}

/// No position occurs twice.
pub open spec fn distinct(r: Seq<usize>) -> bool {
    forall|k1: int, k2: int| 0 <= k1 < k2 < r.len() ==> #[trigger] r[k1] != #[trigger] r[k2]
}

/// The positions `r` are ordered by rank, highest first, and positions of
/// equal rank in their order.
pub open spec fn ranked_descending(s: Seq<RankedEntry>, r: Seq<usize>) -> bool {
    forall|k1: int, k2: int|
        0 <= k1 < k2 < r.len() ==> s[#[trigger] r[k1] as int].rank > s[#[trigger] r[k2] as int].rank
            || (s[r[k1] as int].rank == s[r[k2] as int].rank && r[k1] < r[k2])
}

/// The positions `r` list each representative of `s` exactly once, by rank
/// from highest to lowest.
pub open spec fn representatives_by_rank(s: Seq<RankedEntry>, r: Seq<usize>) -> bool {
    &&& forall|x: usize| #[trigger] r.contains(x) <==> is_representative(s, x as int)
    &&& distinct(r)
    &&& ranked_descending(s, r)
}

fn same_identity_exec(a: &RankedEntry, b: &RankedEntry) -> (r: bool)
    ensures
        r == same_identity(*a, *b),
{
    if a.start_line != b.start_line || !str_equal(a.relpath.as_str(), b.relpath.as_str()) {
        return false;
    }
    match (&a.symbol_name, &b.symbol_name) {
        (Some(x), Some(y)) => str_equal(x.as_str(), y.as_str()),
        (None, None) => true,
        _ => false,
    }
}

/// Whether entry `i` is the one kept of its group of duplicates.
fn representative_at(entries: &Vec<RankedEntry>, i: usize) -> (r: bool)
    requires
        i < entries.len(),
    ensures
        r == is_representative(entries@, i as int),
{
    let n = entries.len();
    let mut j: usize = 0;
    while j < n
        invariant
            i < n == entries.len(),
            j <= n,
            forall|t: int|
                0 <= t < j && #[trigger] same_identity(entries@[t], entries@[i as int]) ==> (
                entries@[t].rank < entries@[i as int].rank || (entries@[t].rank
                    == entries@[i as int].rank && i <= t)),
        decreases n - j,
    {
        if same_identity_exec(&entries[j], &entries[i]) {
            let rj = entries[j].rank;
            let ri = entries[i].rank;
            if !(rj < ri || (rj == ri && i <= j)) {
                return false;
            }
        }
        j = j + 1;
    }
    true
}

/// Inserts position `i` after every position of rank at least its own.
fn insert_by_rank(reps: &mut Vec<usize>, entries: &Vec<RankedEntry>, i: usize)
    requires
        i < entries.len(),
        forall|x: usize| #[trigger] old(reps)@.contains(x) ==> x < i,
        distinct(old(reps)@),
        ranked_descending(entries@, old(reps)@),
    ensures
        forall|x: usize| #[trigger] final(reps)@.contains(x) <==> (old(reps)@.contains(x) || x == i),
        distinct(final(reps)@),
        ranked_descending(entries@, final(reps)@),
{
    let ghost s = entries@;
    let rank = entries[i].rank;
    proof {
        assert forall|k: int| 0 <= k < reps.len() implies #[trigger] reps@[k] < i by {
            assert(reps@.contains(reps@[k]));
        }
    }
    let mut p: usize = 0;
    while p < reps.len() && entries[reps[p]].rank >= rank
        invariant
            i < entries.len(),
            s == entries@,
            rank == s[i as int].rank,
            p <= reps.len(),
            forall|k: int| 0 <= k < reps.len() ==> #[trigger] reps@[k] < i,
            forall|k: int| 0 <= k < p ==> s[#[trigger] reps@[k] as int].rank >= rank,
        decreases reps.len() - p,
    {
        p = p + 1;
    }
    let ghost old_reps = reps@;
    proof {
        assert forall|k: int| p <= k < old_reps.len() implies s[#[trigger] old_reps[k] as int].rank
            < rank by {
            assert(s[old_reps[p as int] as int].rank < rank);
            if k > p {
                assert(ranked_descending(s, old_reps));
                assert(s[old_reps[p as int] as int].rank >= s[old_reps[k] as int].rank);
            }
        }
        assert(!old_reps.contains(i));
    }
    reps.insert(p, i);
    proof {
        let r = reps@;
        assert(r == old_reps.insert(p as int, i));
        assert forall|x: usize| #[trigger] r.contains(x) <==> (old_reps.contains(x) || x == i) by {
            if r.contains(x) {
                let k = choose|k: int| 0 <= k < r.len() && r[k] == x;
                if k < p {
                    assert(old_reps[k] == x);
                } else if k > p {
                    assert(old_reps[k - 1] == x);
                }
            }
            if old_reps.contains(x) {
                let k = choose|k: int| 0 <= k < old_reps.len() && old_reps[k] == x;
                if k < p {
                    assert(r[k] == x);
                } else {
                    assert(r[k + 1] == x);
                }
            }
            if x == i {
                assert(r[p as int] == i);
            }
        }
        assert forall|k1: int, k2: int| 0 <= k1 < k2 < r.len() implies #[trigger] r[k1]
            != #[trigger] r[k2] && s[r[k1] as int].rank >= s[r[k2] as int].rank by {
            if k1 != p && k2 != p {
                let a = if k1 < p { k1 } else { k1 - 1 };
                let b = if k2 < p { k2 } else { k2 - 1 };
                assert(r[k1] == old_reps[a]);
                assert(r[k2] == old_reps[b]);
                assert(s[old_reps[a] as int].rank >= s[old_reps[b] as int].rank);
            } else if k1 == p {
                assert(r[k2] == old_reps[k2 - 1]);
                assert(old_reps[k2 - 1] < i);
                assert(s[old_reps[k2 - 1] as int].rank < rank);
            } else {
                assert(r[k1] == old_reps[k1]);
                assert(old_reps[k1] < i);
                assert(s[old_reps[k1] as int].rank >= rank);
            }
        }
    }
}

/// The positions of the representatives of each group of duplicates, by
/// rank from highest to lowest; representatives of equal rank keep their
/// order of appearance.
pub fn representatives(entries: &Vec<RankedEntry>) -> (r: Vec<usize>)
    ensures
        representatives_by_rank(entries@, r@),
{
    let n = entries.len();
    let mut reps: Vec<usize> = Vec::new();
    let mut i: usize = 0;
    while i < n
        invariant
            n == entries.len(),
            i <= n,
            forall|x: usize|
                #[trigger] reps@.contains(x) <==> (x < i && is_representative(entries@, x as int)),
            distinct(reps@),
            ranked_descending(entries@, reps@),
        decreases n - i,
    {
        if representative_at(entries, i) {
            insert_by_rank(&mut reps, entries, i);
        }
        i = i + 1;
    }
    reps
}

/// Deduplicates results: the positions of the results kept, in output order.
/// When deduplication is off, or there is nothing to deduplicate, every
/// result is kept in its place; otherwise one result per identity, the
/// highest-ranked (the first such on a tie), ordered by rank.
pub fn deduplicate(entries: &Vec<RankedEntry>, config: &DeduplicationConfig) -> (r: Vec<usize>)
    ensures
        !config.enabled ==> r@ == Seq::new(entries.len() as nat, |k: int| k as usize),
        config.enabled ==> representatives_by_rank(entries@, r@),
{
    if !config.enabled || entries.len() == 0 {
        let mut all: Vec<usize> = Vec::new();
        let mut k: usize = 0;
        while k < entries.len()
            invariant
                k <= entries.len(),
                all@ == Seq::new(k as nat, |t: int| t as usize),
            decreases entries.len() - k,
        {
            all.push(k);
            k = k + 1;
        }
        proof {
            if config.enabled {
                assert forall|x: usize| #[trigger] all@.contains(x) <==> is_representative(
                    entries@,
                    x as int,
                ) by {}
            }
        }
        all
    } else {
        representatives(entries)
    }
}

/// Deduplicates search hits and keeps at most `limit` of them: the first
/// `limit` representatives by rank.
pub fn deduplicate_search_hits(entries: &Vec<RankedEntry>, limit: usize) -> (r: Vec<usize>)
    ensures
        exists|full: Seq<usize>|
            representatives_by_rank(entries@, full) && r@ == full.take(
                if limit < full.len() { limit as int } else { full.len() as int },
            ),
{
    let mut reps = representatives(entries);
    let ghost full = reps@;
    if limit < reps.len() {
        reps.truncate(limit);
    }
    assert(representatives_by_rank(entries@, full) && reps@ == full.take(
        if limit < full.len() { limit as int } else { full.len() as int },
    ));
    reps
}

/// The best duplicate of entry `i` among the first `k` entries: the
/// highest-ranked, the first such on a tie; -1 when there is none.
spec fn best_upto(s: Seq<RankedEntry>, i: int, k: nat) -> int
    decreases k,
{
    if k == 0 {
        -1
    } else {
        let b = best_upto(s, i, (k - 1) as nat);
        let j = k - 1;
        if same_identity(s[j], s[i]) && (b == -1 || s[j].rank > s[b].rank) {
            j
        } else {
            b
        }
    }
}

proof fn lemma_best_upto(s: Seq<RankedEntry>, i: int, k: nat)
    requires
        0 <= i < s.len(),
        k <= s.len(),
    ensures
        best_upto(s, i, k) == -1 <==> (forall|j: int| 0 <= j < k ==> !same_identity(s[j], s[i])),
        best_upto(s, i, k) != -1 ==> {
            let b = best_upto(s, i, k);
            &&& 0 <= b < k
            &&& same_identity(s[b], s[i])
            &&& forall|j: int|
                0 <= j < k && #[trigger] same_identity(s[j], s[i]) ==> (s[j].rank < s[b].rank || (
                s[j].rank == s[b].rank && b <= j))
        },
    decreases k,
{
    if k > 0 {
        lemma_best_upto(s, i, (k - 1) as nat);
    }
}

/// Every result has a kept duplicate: an entry of its identity that is the
/// representative of its group.
pub proof fn lemma_every_identity_represented(s: Seq<RankedEntry>, i: int)
    requires
        0 <= i < s.len(),
    ensures
        exists|j: int| is_representative(s, j) && #[trigger] same_identity(s[i], s[j]),
{
    lemma_best_upto(s, i, s.len());
    let b = best_upto(s, i, s.len());
    assert(same_identity(s[i], s[i]));
    assert forall|j: int| 0 <= j < s.len() && #[trigger] same_identity(s[j], s[b]) implies (s[j].rank
        < s[b].rank || (s[j].rank == s[b].rank && b <= j)) by {
        assert(same_identity(s[j], s[i]));
    }
    assert(is_representative(s, b));
    assert(same_identity(s[i], s[b]));
}

/// No two kept results are duplicates of each other.
pub proof fn lemma_representatives_unique(s: Seq<RankedEntry>, i: int, j: int)
    requires
        is_representative(s, i),
        is_representative(s, j),
        same_identity(s[i], s[j]),
    ensures
        i == j,
{
    assert(same_identity(s[j], s[i]));
}

/// A kept result ranks at least as high as each of its duplicates.
pub proof fn lemma_representative_ranks_highest(s: Seq<RankedEntry>, i: int, j: int)
    requires
        is_representative(s, i),
        0 <= j < s.len(),
        same_identity(s[j], s[i]),
    ensures
        s[j].rank <= s[i].rank,
{
}

} // verus!
