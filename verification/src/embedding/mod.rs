//! Errors of the embedding service.

pub mod error;
