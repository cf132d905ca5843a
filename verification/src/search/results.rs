//! Search options and the query details reported with results.

use vstd::prelude::*;
use crate::search::types::SearchMode;
use crate::text::{i64_to_decimal_chars, signed_decimal, string_of};

verus! {

/// Filters applied to the search query.
#[derive(Debug, Clone)]
pub struct QueryFilters {
    /// Repository ID being searched.
    pub repo_id: i64,
    /// Optional worktree ID filter.
    pub worktree_id: Option<i64>,
    /// File type filters (such as "ts" or "js").
    pub file_types: Vec<String>,
    /// Recency threshold filter (such as "7 days").
    pub recency_threshold: Option<String>,
}

/// Details about query processing.
#[derive(Debug, Clone)]
pub struct QueryProcessingDetails {
    /// Original query string.
    pub original: String,
    /// Detected search mode.
    pub mode: SearchMode,
    /// Number of tokens extracted.
    pub token_count: usize,
    /// Number of expanded terms added.
    pub expanded_term_count: usize,
    /// FTS query string generated.
    pub fts_query: String,
    /// Whether an embedding was generated.
    pub has_embedding: bool,
}

impl QueryProcessingDetails {
    /// Create new query processing details.
    pub fn new(
        original: String,
        mode: SearchMode,
        token_count: usize,
        expanded_term_count: usize,
        fts_query: String,
        has_embedding: bool,
    ) -> (d: Self)
        ensures
            d.original == original,
            d.mode == mode,
            d.token_count == token_count,
            d.expanded_term_count == expanded_term_count,
            d.fts_query == fts_query,
            d.has_embedding == has_embedding,
    {
        QueryProcessingDetails {
            original,
            mode,
            token_count,
            expanded_term_count,
            fts_query,
            has_embedding,
        }
    }
}

/// Options for configuring search execution, over the type of the fusion
/// weights.
#[derive(Debug, Clone)]
pub struct SearchOptions<W> {
    /// Repository ID to search within.
    pub repo_id: i64,
    /// Optional worktree ID for filtering.
    pub worktree_id: Option<i64>,
    /// Maximum number of results to return.
    pub limit: usize,
    /// Fusion weights for combining scores.
    pub fusion_weights: Option<W>,
    /// Whether to skip vector search.
    pub skip_vector: bool,
    /// Whether to skip graph search.
    pub skip_graph: bool,
    /// Whether to skip signal search.
    pub skip_signals: bool,
    /// Whether to deduplicate results across worktrees (default: true).
    pub deduplicate: bool,
    /// File type filters.
    pub file_types: Vec<String>,
    /// Recency threshold filter.
    pub recency_threshold: Option<String>,
    /// Whether to include confidence signals in results (default: false).
    pub include_confidence: bool,
}

impl<W> SearchOptions<W> {
    /// Options with the required parameters: no weights given, no search
    /// skipped, deduplication on, no filters, no confidence signals.
    pub fn new(repo_id: i64, worktree_id: Option<i64>, limit: usize) -> (o: Self)
        ensures
            o.repo_id == repo_id,
            o.worktree_id == worktree_id,
            o.limit == limit,
            o.fusion_weights is None,
            !o.skip_vector,
            !o.skip_graph,
            !o.skip_signals,
            o.deduplicate,
            o.file_types@.len() == 0,
            o.recency_threshold is None,
            !o.include_confidence,
    {
        SearchOptions {
            repo_id,
            worktree_id,
            limit,
            fusion_weights: None,
            skip_vector: false,
            skip_graph: false,
            skip_signals: false,
            deduplicate: true,
            file_types: Vec::new(),
            recency_threshold: None,
            include_confidence: false,
        }
    }

    /// Set the fusion weights.
    pub fn with_fusion_weights(self, weights: W) -> (o: Self)
        ensures
            o == (SearchOptions { fusion_weights: Some(weights), ..self }),
    {
        SearchOptions { fusion_weights: Some(weights), ..self }
    }

    /// Set whether to skip vector search.
    pub fn with_skip_vector(self, skip: bool) -> (o: Self)
        ensures
            o == (SearchOptions { skip_vector: skip, ..self }),
    {
        SearchOptions { skip_vector: skip, ..self }
    }

    /// Set whether to skip graph search.
    pub fn with_skip_graph(self, skip: bool) -> (o: Self)
        ensures
            o == (SearchOptions { skip_graph: skip, ..self }),
    {
        SearchOptions { skip_graph: skip, ..self }
    }

    /// Set whether to skip signal search.
    pub fn with_skip_signals(self, skip: bool) -> (o: Self)
        ensures
            o == (SearchOptions { skip_signals: skip, ..self }),
    {
        SearchOptions { skip_signals: skip, ..self }
    }

    /// How many results to ask each strategy for and how many fused results
    /// to keep: three times the limit, and for fusion three times the limit
    /// only when duplicates are to be removed afterwards.
    pub fn fetch_limits(&self) -> (r: (usize, usize))
        requires
            self.limit * 3 <= usize::MAX,
        ensures
            r.0 == self.limit * 3,
            r.1 == if self.deduplicate {
                self.limit * 3
            } else {
                self.limit as int
            },
    {
        let per_strategy = self.limit * 3;
        let fused = if self.deduplicate {
            self.limit * 3
        } else {
            self.limit
        };
        (per_strategy, fused)
    }

    /// Disable deduplication.
    pub fn without_dedup(self) -> (o: Self)
        ensures
            o == (SearchOptions { deduplicate: false, ..self }),
    {
        SearchOptions { deduplicate: false, ..self }
    }

    /// Set deduplication explicitly.
    pub fn with_deduplicate(self, deduplicate: bool) -> (o: Self)
        ensures
            o == (SearchOptions { deduplicate, ..self }),
    {
        SearchOptions { deduplicate, ..self }
    }
}

impl<W: Clone + Default> SearchOptions<W> {
    /// The fusion weights, or the defaults when none were given.
    pub fn get_fusion_weights(&self) -> (w: W)
        ensures
            match self.fusion_weights {
                Some(given) => cloned::<W>(given, w),
                None => call_ensures(W::default, (), w),
            },
    {
        match &self.fusion_weights {
            Some(w) => w.clone(),
            None => W::default(),
        }
    }
}

/// A chunk's line range as `start-end`.
pub fn line_range(start_line: i32, end_line: i32) -> (r: String)
    ensures
        r@ == signed_decimal(start_line as int) + seq!['-'] + signed_decimal(end_line as int),
{
    let mut cs = i64_to_decimal_chars(start_line as i64);
    cs.push('-');
    let end = i64_to_decimal_chars(end_line as i64);
    let mut i: usize = 0;
    let ghost head = cs@;
    while i < end.len()
        invariant
            i <= end.len(),
            cs@ == head + end@.take(i as int),
        decreases end.len() - i,
    {
        cs.push(end[i]);
        assert(cs@ =~= head + end@.take(i + 1));
        i = i + 1;
    }
    assert(end@.take(end.len() as int) =~= end@);
    string_of(&cs)
}

/// The number of lines a chunk spans, both ends included.
pub fn line_count(start_line: i32, end_line: i32) -> (n: i32)
    requires
        i32::MIN <= end_line - start_line <= i32::MAX,
        end_line - start_line + 1 <= i32::MAX,
    ensures
        n == end_line - start_line + 1,
{
    end_line - start_line + 1
}

} // verus!
