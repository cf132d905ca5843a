//! Vector similarity search errors.

use vstd::prelude::*;
use crate::text::concat;

verus! {

/// Errors that can occur during vector search.
#[derive(Debug, Clone, PartialEq, Eq)]
pub enum VectorError {
    /// Database query error.
    Database(String),
}

/// The message of a vector search error.
pub open spec fn vector_error_message(e: VectorError) -> Seq<char> {
    match e {
        VectorError::Database(m) => "Database error: "@ + m@,
    }
}

impl VectorError {
    /// The error's message.
    pub fn message(&self) -> (s: String)
        ensures
            s@ == vector_error_message(*self),
    {
        match self {
            VectorError::Database(m) => concat("Database error: ", m.as_str()),
        }
    }
}

} // verus!
