//! Metrics kept by the library itself.

pub mod cache_metrics;
