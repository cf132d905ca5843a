//! Search pipeline errors and the chunk details assembled into results.

use vstd::prelude::*;
use crate::search::dedup::{deduplicate_search_hits, representatives_by_rank, RankedEntry};
use crate::search::executors::{executor_error_message, ExecutorError};
use crate::search::query_processor::{query_error_message, QueryProcessorError};
use crate::text::concat;

verus! {

/// Details of a chunk fetched for result assembly.
#[derive(Debug, Clone)]
pub struct ChunkDetails {
    pub file_id: i64,
    pub relpath: String,
    pub symbol_name: Option<String>,
    pub kind: String,
    pub start_line: i32,
    pub end_line: i32,
    pub preview: String,
}

/// Errors that can occur during pipeline execution.
#[derive(Debug, Clone, PartialEq, Eq)]
pub enum PipelineError {
    /// Query processing failed.
    QueryProcessing(QueryProcessorError),
    /// Search execution failed.
    SearchExecution(ExecutorError),
    /// Database query failed.
    Database(String),
    /// Result assembly failed.
    Assembly(String),
}

/// The message of a pipeline error.
pub open spec fn pipeline_error_message(e: PipelineError) -> Seq<char> {
    match e {
        PipelineError::QueryProcessing(q) => "Query processing failed: "@ + query_error_message(q),
        PipelineError::SearchExecution(x) => "Search execution failed: "@
            + executor_error_message(x),
        PipelineError::Database(m) => "Database error: "@ + m@,
        PipelineError::Assembly(m) => "Result assembly failed: "@ + m@,
    }
}

impl PipelineError {
    /// The error's message.
    pub fn message(&self) -> (s: String)
        ensures
            s@ == pipeline_error_message(*self),
    {
        match self {
            PipelineError::QueryProcessing(q) => {
                let inner = q.message();
                concat("Query processing failed: ", inner.as_str())
            },
            PipelineError::SearchExecution(x) => {
                let inner = x.message();
                concat("Search execution failed: ", inner.as_str())
            },
            PipelineError::Database(m) => concat("Database error: ", m.as_str()),
            PipelineError::Assembly(m) => concat("Result assembly failed: ", m.as_str()),
        }
    }
}

/// At most this many assembled results get their related chunks attached.
pub const MAX_RELATED_EXPANSIONS: usize = 3;

/// What result assembly does with the next result when related chunks were
/// asked for.
#[derive(Debug, Clone, Copy, PartialEq, Eq, Structural)]
pub enum ExpansionStep {
    /// The cap is reached: no further result is expanded.
    Stop,
    /// This result is not confident enough to be expanded.
    Skip,
    /// Look up the related chunks of this result.
    Expand,
}

/// Decides the next step of related-chunk expansion, given how many results
/// were expanded so far and the result's confidence signals (how many
/// strategies found it, and whether it matched exactly), if it has them.
/// Only results found by two strategies or matched exactly are expanded, and
/// a failed lookup does not count toward the cap.
pub fn related_expansion_step(expanded: usize, confidence: Option<(usize, bool)>) -> (step:
    ExpansionStep)
    ensures
        expanded >= MAX_RELATED_EXPANSIONS ==> step == ExpansionStep::Stop,
        expanded < MAX_RELATED_EXPANSIONS ==> step == match confidence {
            Some((sources, exact)) => if sources >= 2 || exact {
                ExpansionStep::Expand
            } else {
                ExpansionStep::Skip
            },
            None => ExpansionStep::Skip,
        },
{
    if expanded >= MAX_RELATED_EXPANSIONS {
        return ExpansionStep::Stop;
    }
    match confidence {
        Some((sources, exact)) => if sources >= 2 || exact {
            ExpansionStep::Expand
        } else {
            ExpansionStep::Skip
        },
        None => ExpansionStep::Skip,
    }
}

/// The positions of the fused results whose chunk details were found, in
/// order.
pub open spec fn present_positions(es: Seq<Option<RankedEntry>>) -> Seq<usize>
    decreases es.len(),
{
    if es.len() == 0 {
        Seq::empty()
    } else if es.last() is Some {
        present_positions(es.drop_last()).push((es.len() - 1) as usize)
    } else {
        present_positions(es.drop_last())
    }
}

/// The fused results whose chunk details were found, in order.
pub open spec fn present_entries(es: Seq<Option<RankedEntry>>) -> Seq<RankedEntry>
    decreases es.len(),
{
    if es.len() == 0 {
        Seq::empty()
    } else if es.last() is Some {
        present_entries(es.drop_last()).push(es.last()->0)
    } else {
        present_entries(es.drop_last())
    }
}

proof fn lemma_present_lengths(es: Seq<Option<RankedEntry>>)
    ensures
        present_positions(es).len() == present_entries(es).len(),
        forall|k: int| 0 <= k < present_positions(es).len() ==> #[trigger] present_positions(es)[k] < es.len(),
    decreases es.len(),
{
    if es.len() > 0 {
        lemma_present_lengths(es.drop_last());
    }
}

/// The final results of a search, as positions in the fused ranking: the
/// fused results whose chunk details were found, in fused order; with
/// deduplication, only the first `limit` representatives of their
/// identities, by rank.
pub fn assemble_order(entries: Vec<Option<RankedEntry>>, limit: usize, dedup: bool) -> (r: Vec<usize>)
    ensures
        !dedup ==> r@ == present_positions(entries@),
        dedup ==> r.len() <= limit,
        dedup ==> exists|full: Seq<usize>|
            representatives_by_rank(present_entries(entries@), full) && r@ == full.take(
                if limit < full.len() { limit as int } else { full.len() as int },
            ).map_values(|p: usize| present_positions(entries@)[p as int]),
{
    let ghost orig = entries@;
    let n = entries.len();
    let mut es = entries;
    let mut kept: Vec<RankedEntry> = Vec::new();
    let mut pos: Vec<usize> = Vec::new();
    let mut i: usize = 0;
    while i < n
        invariant
            n == orig.len(),
            i <= n,
            es@ == orig.subrange(i as int, n as int),
            kept@ == present_entries(orig.take(i as int)),
            pos@ == present_positions(orig.take(i as int)),
        decreases n - i,
    {
        let e = es.remove(0);
        proof {
            assert(orig.take(i + 1).drop_last() =~= orig.take(i as int));
            assert(e == orig[i as int]);
            assert(es@ =~= orig.subrange(i + 1, n as int));
        }
        match e {
            Some(entry) => {
                kept.push(entry);
                pos.push(i);
            },
            None => {},
        }
        i = i + 1;
    }
    proof {
        assert(orig.take(n as int) =~= orig);
        lemma_present_lengths(orig);
    }
    if !dedup {
        return pos;
    }
    let chosen = deduplicate_search_hits(&kept, limit);
    let ghost full = choose|full: Seq<usize>|
        representatives_by_rank(kept@, full) && chosen@ == full.take(
            if limit < full.len() { limit as int } else { full.len() as int },
        );
    proof {
        assert forall|t: int| 0 <= t < chosen.len() implies #[trigger] chosen@[t] < pos.len() by {
            assert(full.contains(chosen@[t]));
        }
    }
    let mut out: Vec<usize> = Vec::new();
    let mut t: usize = 0;
    while t < chosen.len()
        invariant
            t <= chosen.len(),
            forall|q: int| 0 <= q < chosen.len() ==> #[trigger] chosen@[q] < pos.len(),
            out@ == chosen@.take(t as int).map_values(|p: usize| pos@[p as int]),
        decreases chosen.len() - t,
    {
        out.push(pos[chosen[t]]);
        assert(out@ =~= chosen@.take(t + 1).map_values(|p: usize| pos@[p as int]));
        t = t + 1;
    }
    proof {
        assert(chosen@.take(chosen.len() as int) =~= chosen@);
        assert(out@ =~= full.take(
            if limit < full.len() { limit as int } else { full.len() as int },
        ).map_values(|p: usize| present_positions(orig)[p as int]));
    }
    out
}

} // verus!
