//! Full-text search: its executor marker, its errors and query normalization.

use vstd::prelude::*;
use crate::text::{concat, lowercase, str_to_lowercase};

verus! {

/// Full-text search executor.
pub struct FTSExecutor;

/// Errors that can occur during FTS execution.
#[derive(Debug, Clone, PartialEq, Eq)]
pub enum FTSError {
    /// Database query error.
    Database(String),
    /// Invalid FTS query syntax.
    InvalidQuery(String),
}

/// The message of an FTS error.
pub open spec fn fts_error_message(e: FTSError) -> Seq<char> {
    match e {
        FTSError::Database(m) => "Database error: "@ + m@,
        FTSError::InvalidQuery(m) => "Invalid FTS query: "@ + m@,
    }
}

impl FTSError {
    /// The error's message.
    pub fn message(&self) -> (s: String)
        ensures
            s@ == fts_error_message(*self),
    {
        match self {
            FTSError::Database(m) => concat("Database error: ", m.as_str()),
            FTSError::InvalidQuery(m) => concat("Invalid FTS query: ", m.as_str()),
        }
    }
}

/// Named result of compiling `pattern` with `regex::Regex::new` and, when it
/// compiles, replacing every match in `text` with `replacement` (where `$1`,
/// `${1}` and the like stand for capture groups); `None` when the pattern
/// does not compile.
pub uninterp spec fn regex_replace_all(
    pattern: Seq<char>,
    text: Seq<char>,
    replacement: Seq<char>,
) -> Option<Seq<char>>;

/// Calls `regex::Regex::new` and then `Regex::replace_all`. The result is
/// the named `regex_replace_all` of the three arguments.
#[verifier::external_body]
fn replace_all_matches(pattern: &str, text: &str, replacement: &str) -> (r: Option<String>)
    ensures
        regex_replace_all(pattern@, text@, replacement@) == match r {
            Some(s) => Some(s@),
            None => None,
        },
{
    match regex::Regex::new(pattern) {
        Ok(re) => Some(re.replace_all(text, replacement).into_owned()),
        Err(_) => None,
    }
}

/// One rewriting step; a pattern that did not compile leaves the text as it
/// was.
pub open spec fn rewrite(pattern: Seq<char>, text: Seq<char>, replacement: Seq<char>) -> Seq<char> {
    match regex_replace_all(pattern, text, replacement) {
        Some(s) => s,
        None => text,
    }
}

/// Apply one rewriting step.
fn rewrite_step(pattern: &str, text: String, replacement: &str) -> (r: String)
    ensures
        r@ == rewrite(pattern@, text@, replacement@),
{
    match replace_all_matches(pattern, text.as_str(), replacement) {
        Some(s) => s,
        None => text,
    }
}

/// The query in snake_case for exact symbol matching: acronyms and
/// camelCase humps are split with underscores, whitespace, `-` and `.`
/// become underscores, everything is lowercased, runs of underscores
/// collapse and leading and trailing underscores go.
pub open spec fn normalized_for_exact_match(query: Seq<char>) -> Seq<char> {
    let s1 = rewrite("([A-Z]+)([A-Z][a-z])"@, query, "${1}_${2}"@);
    let s2 = rewrite("([a-z\\d])([A-Z]{2,})"@, s1, "${1}_${2}"@);
    let s3 = rewrite("([a-z\\d])([A-Z])"@, s2, "${1}_${2}"@);
    let s4 = rewrite("[\\s\\-\\.]"@, s3, "_"@);
    let s5 = lowercase(s4);
    let s6 = rewrite("_+"@, s5, "_"@);
    rewrite("^_|_$"@, s6, ""@)
}

/// Normalize a query for exact match detection: acronym-aware camelCase to
/// snake_case conversion ("validateHTTPRequest" becomes
/// "validate_http_request", "validate-provider" becomes "validate_provider").
pub fn normalize_for_exact_match(query: &str) -> (r: String)
    ensures
        r@ == normalized_for_exact_match(query@),
{
    let s = query.to_owned();
    let s = rewrite_step("([A-Z]+)([A-Z][a-z])", s, "${1}_${2}");
    let s = rewrite_step("([a-z\\d])([A-Z]{2,})", s, "${1}_${2}");
    let s = rewrite_step("([a-z\\d])([A-Z])", s, "${1}_${2}");
    let s = rewrite_step("[\\s\\-\\.]", s, "_");
    let s = str_to_lowercase(s.as_str());
    let s = rewrite_step("_+", s, "_");
    rewrite_step("^_|_$", s, "")
}

} // verus!
