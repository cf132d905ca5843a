//! Temporal-signal search: its executor marker and its errors.

use vstd::prelude::*;
use crate::text::concat;

verus! {

/// Temporal signals executor.
pub struct SignalExecutor;

/// Errors that can occur during signal query execution.
#[derive(Debug, Clone, PartialEq, Eq)]
pub enum SignalError {
    /// Database query error.
    Database(String),
    /// Invalid signal weights.
    InvalidWeights(String),
}

/// The message of a signal error.
pub open spec fn signal_error_message(e: SignalError) -> Seq<char> {
    match e {
        SignalError::Database(m) => "Database error: "@ + m@,
        SignalError::InvalidWeights(m) => "Invalid signal weights: "@ + m@,
    }
}

impl SignalError {
    /// The error's message.
    pub fn message(&self) -> (s: String)
        ensures
            s@ == signal_error_message(*self),
    {
        match self {
            SignalError::Database(m) => concat("Database error: ", m.as_str()),
            SignalError::InvalidWeights(m) => concat("Invalid signal weights: ", m.as_str()),
        }
    }
}

} // verus!
