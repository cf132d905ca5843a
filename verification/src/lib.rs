//! Maproom search core: query tokenization, expansion and mode detection,
//! structured error diagnostics, memory bookkeeping, progress tracking and
//! command-line helpers.

pub mod cli;
pub mod embedding;
pub mod memory;
pub mod metrics;
pub mod migrate;
pub mod order;
pub mod profiling;
pub mod progress;
pub mod search;
pub mod strmap;
pub mod text;
