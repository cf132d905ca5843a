//! Search strategy identifiers.

use vstd::prelude::*;

verus! {

/// Source of a ranked result set, indicating which search strategy produced it.
#[derive(Debug, Clone, Copy, PartialEq, Eq, Hash, Structural)]
pub enum SearchSource {
    /// Full-text search
    FTS,
    /// Vector similarity search
    Vector,
    /// Graph-based importance from chunk edges
    Graph,
    /// Recency and churn signal scores
    Signals,
}

/// The human-readable name of each search source.
pub open spec fn source_name(source: SearchSource) -> Seq<char> {
    match source {
        SearchSource::FTS => "Full-Text Search"@,
        SearchSource::Vector => "Vector Similarity"@,
        SearchSource::Graph => "Graph Importance"@,
        SearchSource::Signals => "Temporal Signals"@,
    }
}

impl SearchSource {
    /// Get a human-readable name for this search source.
    pub fn name(&self) -> (name: &'static str)
        ensures
            name@ == source_name(*self),
    {
        match self {
            SearchSource::FTS => "Full-Text Search",
            SearchSource::Vector => "Vector Similarity",
            SearchSource::Graph => "Graph Importance",
            SearchSource::Signals => "Temporal Signals",
        }
    }
}

} // verus!
