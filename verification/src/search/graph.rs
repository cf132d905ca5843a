//! Graph-importance search: its executor marker and its errors.

use vstd::prelude::*;
use crate::text::concat;

verus! {

/// Graph importance executor.
pub struct GraphExecutor;

/// Errors that can occur during graph query execution.
#[derive(Debug, Clone, PartialEq, Eq)]
pub enum GraphError {
    /// Database query error.
    Database(String),
    /// No edge data available.
    NoGraphData,
}

/// The message of a graph error.
pub open spec fn graph_error_message(e: GraphError) -> Seq<char> {
    match e {
        GraphError::Database(m) => "Database error: "@ + m@,
        GraphError::NoGraphData => "No graph data available"@,
    }
}

impl GraphError {
    /// The error's message.
    pub fn message(&self) -> (s: String)
        ensures
            s@ == graph_error_message(*self),
    {
        match self {
            GraphError::Database(m) => concat("Database error: ", m.as_str()),
            GraphError::NoGraphData => "No graph data available".to_owned(),
        }
    }
}

} // verus!
