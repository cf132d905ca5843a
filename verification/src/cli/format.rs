//! Output formats of the command line and the one-line error record.

use vstd::prelude::*;
use crate::text::{chars_of, string_of, string_push_str};

verus! {

/// Output format for search results.
#[derive(Debug, Clone, Copy, PartialEq, Eq, Structural)]
pub enum OutputFormat {
    /// JSON output (default).
    Json,
    /// Compact line-oriented output for agents.
    Agent,
}

impl Default for OutputFormat {
    fn default() -> (f: Self)
        ensures
            f == OutputFormat::Json,
    {
        OutputFormat::Json
    }
}

/// Whether previews are shown, and how long they are: the agent format
/// always shows them (120 characters unless told otherwise); other formats
/// show them when asked (200 characters unless told otherwise).
pub open spec fn preview_settings(
    format: OutputFormat,
    preview: bool,
    preview_length: Option<usize>,
) -> (bool, usize) {
    if format == OutputFormat::Agent {
        (
            true,
            match preview_length {
                Some(n) => n,
                None => 120,
            },
        )
    } else {
        (
            preview,
            match preview_length {
                Some(n) => n,
                None => 200,
            },
        )
    }
}

/// Resolve the preview settings for an output format.
pub fn resolve_preview(format: OutputFormat, preview: bool, preview_length: Option<usize>) -> (r: (
    bool,
    usize,
))
    ensures
        r == preview_settings(format, preview, preview_length),
{
    if format == OutputFormat::Agent {
        (true, preview_length.unwrap_or(120))
    } else {
        (preview, preview_length.unwrap_or(200))
    }
}

/// A line break character.
pub open spec fn is_line_break(c: char) -> bool {
    c == '\n' || c == '\r'
}

/// The text with every line break replaced by a space.
pub open spec fn without_newlines(s: Seq<char>) -> Seq<char> {
    s.map_values(|c: char| if is_line_break(c) { ' ' } else { c })
}

/// Replace line breaks with spaces so the text fits on one line.
pub fn sanitize_newlines(s: &str) -> (r: String)
    ensures
        r@ == without_newlines(s@),
{
    let cs = chars_of(s);
    let mut out: Vec<char> = Vec::new();
    let mut i: usize = 0;
    while i < cs.len()
        invariant
            i <= cs.len(),
            cs@ == s@,
            out@ == without_newlines(cs@.take(i as int)),
        decreases cs.len() - i,
    {
        let c = cs[i];
        if c == '\n' || c == '\r' {
            out.push(' ');
        } else {
            out.push(c);
        }
        assert(out@ =~= without_newlines(cs@.take(i + 1)));
        i = i + 1;
    }
    assert(cs@.take(cs.len() as int) =~= cs@);
    string_of(&out)
}

/// The structured error record:
/// `ERROR | type=<type> | message=<message> | suggestion=<suggestion>`,
/// each field with its line breaks turned into spaces.
pub open spec fn agent_error_line(
    error_type: Seq<char>,
    message: Seq<char>,
    suggestion: Seq<char>,
) -> Seq<char> {
    "ERROR | type="@ + without_newlines(error_type) + " | message="@ + without_newlines(message)
        + " | suggestion="@ + without_newlines(suggestion)
}

/// Format an error as one structured line for agents.
pub fn format_agent_error(error_type: &str, message: &str, suggestion: &str) -> (r: String)
    ensures
        r@ == agent_error_line(error_type@, message@, suggestion@),
{
    let t = sanitize_newlines(error_type);
    let m = sanitize_newlines(message);
    let s = sanitize_newlines(suggestion);
    let mut out = String::new();
    string_push_str(&mut out, "ERROR | type=");
    string_push_str(&mut out, t.as_str());
    string_push_str(&mut out, " | message=");
    string_push_str(&mut out, m.as_str());
    string_push_str(&mut out, " | suggestion=");
    string_push_str(&mut out, s.as_str());
    assert(out@ =~= agent_error_line(error_type@, message@, suggestion@));
    out
}

/// No character of the text is a line break.
pub open spec fn single_line(s: Seq<char>) -> bool {
    forall|i: int| 0 <= i < s.len() ==> !is_line_break(#[trigger] s[i])
}

/// Law: the structured error record is always exactly one line, whatever
/// its fields hold.
pub proof fn lemma_agent_error_single_line(
    error_type: Seq<char>,
    message: Seq<char>,
    suggestion: Seq<char>,
)
    ensures
        single_line(agent_error_line(error_type, message, suggestion)),
{
    reveal_strlit("ERROR | type=");
    reveal_strlit(" | message=");
    reveal_strlit(" | suggestion=");
    let a = "ERROR | type="@;
    let b = without_newlines(error_type);
    let c = " | message="@;
    let d = without_newlines(message);
    let e = " | suggestion="@;
    let f = without_newlines(suggestion);
    assert(single_line(a));
    assert(single_line(b));
    assert(single_line(c));
    assert(single_line(d));
    assert(single_line(e));
    assert(single_line(f));
    assert(single_line(a + b));
    assert(single_line(a + b + c));
    assert(single_line(a + b + c + d));
    assert(single_line(a + b + c + d + e));
    assert(single_line(a + b + c + d + e + f));
}

} // verus!
