//! Migration of stored chunks.

pub mod markdown;
