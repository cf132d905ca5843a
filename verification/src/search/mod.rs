//! Hybrid search: query processing (tokenization, expansion, mode
//! detection), search execution bookkeeping, error diagnostics and result
//! options.

// Query processing.
pub mod expander;
pub mod query_processor;
pub mod tokenizer;
pub mod types;

// Search execution.
pub mod executor_types;
pub mod executors;
pub mod fts;
pub mod graph;
pub mod signals;
pub mod vector;

// Pipeline and results.
pub mod cache;
pub mod dedup;
pub mod errors;
pub mod fusion;
pub mod memory;
pub mod pipeline;
pub mod relationships;
pub mod result_cache;
pub mod results;

pub use expander::QueryExpander;
pub use query_processor::{QueryProcessor, QueryProcessorError};
pub use tokenizer::Tokenizer;
pub use types::{ProcessedQuery, SearchMode};

pub use executor_types::SearchSource;
pub use executors::{ExecutorError, SearchExecutors};
pub use fts::{FTSError, FTSExecutor};
pub use graph::{GraphError, GraphExecutor};
pub use signals::{SignalError, SignalExecutor};
pub use vector::VectorError;

pub use fusion::BasicWeightedFusion;
pub use pipeline::PipelineError;
pub use results::{QueryFilters, QueryProcessingDetails, SearchOptions};
