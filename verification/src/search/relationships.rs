//! Relationship expansion helpers: edge weighting, module proximity,
//! preview truncation and relationship naming for related chunks.

use vstd::prelude::*;
use crate::text::{chars_of, concat, contains_seq, str_contains, str_equal, string_of};

verus! {

/// Maximum preview length in characters.
pub const PREVIEW_MAX_LENGTH: usize = 100;

/// The weight class of an edge to a related chunk.
#[derive(Debug, Clone, Copy, PartialEq, Eq, Structural)]
pub enum EdgeWeight {
    /// Inheritance relationships (`extends`, `implements`) get a boost.
    InheritanceBoost,
    /// Chunks whose kind mentions tests get a penalty.
    TestPenalty,
    /// Every other relationship.
    Default,
}

/// The weight class of an edge, by edge type first and target kind second.
pub open spec fn edge_weight_class(edge_type: Seq<char>, target_kind: Seq<char>) -> EdgeWeight {
    if edge_type == "extends"@ || edge_type == "implements"@ {
        EdgeWeight::InheritanceBoost
    } else if contains_seq(target_kind, "test"@) {
        EdgeWeight::TestPenalty
    } else {
        EdgeWeight::Default
    }
}

/// Classify an edge for weighting.
pub fn compute_edge_weight(edge_type: &str, target_kind: &str) -> (w: EdgeWeight)
    ensures
        w == edge_weight_class(edge_type@, target_kind@),
{
    if str_equal(edge_type, "extends") || str_equal(edge_type, "implements") {
        EdgeWeight::InheritanceBoost
    } else if str_contains(target_kind, "test") {
        EdgeWeight::TestPenalty
    } else {
        EdgeWeight::Default
    }
}

/// Named result of `std::path::Path::parent` on a path given as a string,
/// converted back to a string: the path without its final component, or
/// `None` when the path ends in a root or prefix or is empty.
pub uninterp spec fn path_parent(path: Seq<char>) -> Option<Seq<char>>;

/// Calls `Path::new(path).parent()` and converts the parent back to a string
/// (a parent of a path made from a string is valid UTF-8). The documentation
/// states that an empty path has no parent; the rest is the named
/// `path_parent`.
#[verifier::external_body]
fn parent_of(path: &str) -> (r: Option<String>)
    ensures
        path_parent(path@) == match r {
            Some(s) => Some(s@),
            None => None,
        },
        path@.len() == 0 ==> r is None,
{
    std::path::Path::new(path).parent().and_then(|p| p.to_str()).map(|s| s.to_owned())
}

/// The parent directory of a path, or the empty string if it has none.
pub open spec fn parent_dir(path: Seq<char>) -> Seq<char> {
    match path_parent(path) {
        Some(p) => p,
        None => Seq::empty(),
    }
}

/// Extract the parent directory from a file path ("src/module/file.rs" gives
/// "src/module"); the empty string when there is none.
pub fn extract_parent_dir(path: &str) -> (r: String)
    ensures
        r@ == parent_dir(path@),
{
    match parent_of(path) {
        Some(p) => p,
        None => String::new(),
    }
}

/// Two chunks are in the same module: the same, non-empty directory.
pub fn same_module(chunk_dir: &str, source_dir: &str) -> (b: bool)
    ensures
        b == (chunk_dir@ == source_dir@ && source_dir@.len() > 0),
{
    str_equal(chunk_dir, source_dir) && !source_dir.is_empty()
}

/// The preview of a content: the content itself when it has at most
/// `max_length` characters, else its first `max_length` characters followed
/// by `...`.
pub open spec fn preview_of(content: Seq<char>, max_length: usize) -> Seq<char> {
    if content.len() <= max_length {
        content
    } else {
        content.take(max_length as int) + "..."@
    }
}

/// Truncate content to at most `max_length` characters, marking a cut with
/// an ellipsis.
pub fn truncate_preview(content: &str, max_length: usize) -> (r: String)
    ensures
        r@ == preview_of(content@, max_length),
{
    let cs = chars_of(content);
    if cs.len() <= max_length {
        content.to_owned()
    } else {
        let mut head: Vec<char> = Vec::new();
        let mut i: usize = 0;
        while i < max_length
            invariant
                max_length < cs.len(),
                cs@ == content@,
                i <= max_length,
                head@ == cs@.take(i as int),
            decreases max_length - i,
        {
            head.push(cs[i]);
            assert(head@ =~= cs@.take(i + 1));
            i = i + 1;
        }
        let h = string_of(&head);
        concat(h.as_str(), "...")
    }
}

/// The relationship inferred from the traversal depth.
pub open spec fn relationship_name(depth: i32) -> Seq<char> {
    if depth == 1 {
        "direct"@
    } else if depth == 2 {
        "indirect"@
    } else {
        "unknown"@
    }
}

/// Infer the relationship type from the traversal depth.
pub fn infer_relationship_type(depth: i32) -> (r: String)
    ensures
        r@ == relationship_name(depth),
{
    match depth {
        1 => "direct".to_owned(),
        2 => "indirect".to_owned(),
        _ => "unknown".to_owned(),
    }
}

} // verus!
