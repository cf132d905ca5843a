//! Cache keys for search results and the statistics a result cache reports.

use vstd::prelude::*;
use crate::search::results::SearchOptions;
use crate::text::{
    all_ascii, ascii_lower, ascii_lower_seq, char_whitespace, is_ascii_char, is_ascii_upper,
    lemma_trim_back_shape, lemma_trim_front_shape, lowercase, str_to_lowercase, str_trim, trim_back,
    trim_front, trim_seq,
};

verus! {

/// The query as a cache key holds it: trimmed, then lowercased.
pub open spec fn normalized_query(q: Seq<char>) -> Seq<char> {
    lowercase(trim_seq(q))
}

/// Cache key identifying a query and the parameters that shape its results.
#[derive(Debug, Clone, PartialEq, Eq, Hash)]
pub struct CacheKey {
    /// Normalized query string (trimmed, lowercased).
    pub query: String,
    /// Repository ID.
    pub repo_id: i64,
    /// Optional worktree ID.
    pub worktree_id: Option<i64>,
    /// Result limit.
    pub limit: usize,
}

impl CacheKey {
    /// A new cache key; the query is trimmed and lowercased so that the same
    /// query written differently hits the same entry.
    pub fn new(query: &str, repo_id: i64, worktree_id: Option<i64>, limit: usize) -> (k: Self)
        ensures
            k.query@ == normalized_query(query@),
            k.repo_id == repo_id,
            k.worktree_id == worktree_id,
            k.limit == limit,
    {
        let trimmed = str_trim(query);
        CacheKey { query: str_to_lowercase(trimmed.as_str()), repo_id, worktree_id, limit }
    }

    /// A cache key from search options.
    pub fn from_options<W>(query: &str, options: &SearchOptions<W>) -> (k: Self)
        ensures
            k.query@ == normalized_query(query@),
            k.repo_id == options.repo_id,
            k.worktree_id == options.worktree_id,
            k.limit == options.limit,
    {
        Self::new(query, options.repo_id, options.worktree_id, options.limit)
    }
}

/// Cache performance statistics.
#[derive(Debug, Clone)]
pub struct CacheStats {
    /// Maximum cache capacity.
    pub capacity: usize,
    /// Current number of entries.
    pub size: usize,
    /// Total cache hits.
    pub hits: u64,
    /// Total cache misses.
    pub misses: u64,
    /// Total evictions.
    pub evictions: u64,
}

impl CacheStats {
    /// Total number of queries (hits and misses).
    pub fn total_queries(&self) -> (n: u64)
        requires
            self.hits + self.misses <= u64::MAX,
        ensures
            n == self.hits + self.misses,
    {
        self.hits + self.misses
    }

    /// Whether the cache performs well: more than half of the queries hit.
    /// No queries means not effective.
    pub fn is_effective(&self) -> (b: bool)
        ensures
            b == (self.hits + self.misses > 0 && 2 * self.hits > self.hits + self.misses),
    {
        let total: u128 = self.hits as u128 + self.misses as u128;
        total > 0 && 2 * (self.hits as u128) > total
    }
}

/// Whether putting a key into a cache evicts an entry: the cache is full and
/// the key is not in it yet.
pub fn put_evicts(len: usize, capacity: usize, contains_key: bool) -> (b: bool)
    ensures
        b == (len >= capacity && !contains_key),
{
    len >= capacity && !contains_key
}

/// A trimmed text is empty or starts and ends with non-whitespace, and is
/// a piece of the text.
proof fn lemma_trim_shape(s: Seq<char>)
    ensures
        trim_seq(s).len() == 0 || (!char_whitespace(trim_seq(s)[0]) && !char_whitespace(
            trim_seq(s).last(),
        )),
        all_ascii(s) ==> all_ascii(trim_seq(s)),
{
    lemma_trim_front_shape(s);
    let f = trim_front(s);
    lemma_trim_back_shape(f);
    let t = trim_back(f);
    if t.len() > 0 {
        assert(t[0] == f[0]);
    }
    if all_ascii(s) {
        assert forall|i: int| 0 <= i < t.len() implies is_ascii_char(#[trigger] t[i]) by {
            assert(t[i] == f[i]);
            assert(f[i] == s[s.len() - f.len() + i]);
        }
    }
}

/// A text that is empty or starts and ends with non-whitespace is its own
/// trim.
proof fn lemma_trim_identity(s: Seq<char>)
    requires
        s.len() == 0 || (!char_whitespace(s[0]) && !char_whitespace(s.last())),
    ensures
        trim_seq(s) == s,
{
}

/// Law: normalizing a normalized ASCII query changes nothing, so a cache
/// key built from another key's query is that key again.
pub proof fn lemma_normalization_idempotent(q: Seq<char>)
    requires
        all_ascii(q),
    ensures
        normalized_query(normalized_query(q)) == normalized_query(q),
{
    lemma_trim_shape(q);
    let t = trim_seq(q);
    let l = ascii_lower_seq(t);
    assert(lowercase(t) == l);
    assert(all_ascii(l));
    assert forall|i: int| 0 <= i < t.len() implies char_whitespace(#[trigger] l[i])
        == char_whitespace(t[i]) by {
        let c = t[i];
        if is_ascii_upper(c) {
            assert((ascii_lower(c) as u32) == (c as u32) + 32);
        }
    }
    if t.len() > 0 {
        assert(l[0] == ascii_lower(t[0]));
        assert(l.last() == ascii_lower(t.last()));
        assert(char_whitespace(l[t.len() - 1]) == char_whitespace(t[t.len() - 1]));
    }
    lemma_trim_identity(l);
    assert(lowercase(l) =~= l) by {
        assert forall|i: int| 0 <= i < l.len() implies #[trigger] ascii_lower(l[i]) == l[i] by {
            let c = t[i];
            if is_ascii_upper(c) {
                assert((ascii_lower(c) as u32) == (c as u32) + 32);
            }
        }
    }
}

} // verus!
