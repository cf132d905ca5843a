//! The processed query and the search mode it was given.

use vstd::prelude::*;
use crate::order::{insert_sorted, strictly_sorted, views};
use crate::text::{
    chars_of, contains_seq, join, join_strings, str_contains, string_of, string_push_str,
    trim_chars, trim_seq,
};

verus! {

/// Search mode indicating query type and optimal search strategy.
#[derive(Debug, Clone, Copy, PartialEq, Eq, Structural)]
pub enum SearchMode {
    /// Code-focused search: the query contains code patterns.
    Code,
    /// Text-focused search: a natural language query with several words.
    Text,
    /// Automatic mode selection for ambiguous queries.
    Auto,
}

impl Default for SearchMode {
    fn default() -> (m: Self)
        ensures
            m == SearchMode::Auto,
    {
        SearchMode::Auto
    }
}

impl SearchMode {
    /// Whether this mode prioritizes code embeddings over text embeddings.
    pub fn prefers_code(&self) -> (b: bool)
        ensures
            b == (*self == SearchMode::Code),
    {
        matches!(self, SearchMode::Code)
    }

    /// Whether this mode prioritizes text embeddings over code embeddings.
    pub fn prefers_text(&self) -> (b: bool)
        ensures
            b == (*self == SearchMode::Text),
    {
        matches!(self, SearchMode::Text)
    }

    /// The mode's name in lowercase, as metrics label it.
    pub fn label(&self) -> (s: &'static str)
        ensures
            s@ == match *self {
                SearchMode::Code => "code"@,
                SearchMode::Text => "text"@,
                SearchMode::Auto => "auto"@,
            },
    {
        match self {
            SearchMode::Code => "code",
            SearchMode::Text => "text",
            SearchMode::Auto => "auto",
        }
    }

    /// Whether the mode is automatic (balanced approach).
    pub fn is_auto(&self) -> (b: bool)
        ensures
            b == (*self == SearchMode::Auto),
    {
        matches!(self, SearchMode::Auto)
    }
}

/// Characters with a meaning in a PostgreSQL tsquery.
pub open spec fn is_fts_special(c: char) -> bool {
    c == '&' || c == '|' || c == '!' || c == '(' || c == ')' || c == '<' || c == '>' || c == '\''
        || c == '"'
}

/// The characters of `s` that are not tsquery operators, in order.
pub open spec fn strip_fts_special(s: Seq<char>) -> Seq<char>
    decreases s.len(),
{
    if s.len() == 0 {
        s
    } else if is_fts_special(s.last()) {
        strip_fts_special(s.drop_last())
    } else {
        strip_fts_special(s.drop_last()).push(s.last())
    }
}

/// A term made safe for a tsquery: operators removed, then trimmed.
pub open spec fn escape_fts(term: Seq<char>) -> Seq<char> {
    trim_seq(strip_fts_special(term))
}

/// Each term escaped.
pub open spec fn escape_all(terms: Seq<Seq<char>>) -> Seq<Seq<char>> {
    terms.map_values(|t: Seq<char>| escape_fts(t))
}

/// The tsquery of the tokens: escaped tokens joined with ` & `.
pub open spec fn fts_query(tokens: Seq<Seq<char>>) -> Seq<char> {
    join(escape_all(tokens), " & "@)
}

/// One term is related to another when either contains the other.
pub open spec fn terms_related(token: Seq<char>, term: Seq<char>) -> bool {
    contains_seq(term, token) || contains_seq(token, term)
}

/// The expanded terms related to a token, in their order.
pub open spec fn related_terms(token: Seq<char>, expanded: Seq<Seq<char>>) -> Seq<Seq<char>>
    decreases expanded.len(),
{
    if expanded.len() == 0 {
        expanded
    } else if terms_related(token, expanded.last()) {
        related_terms(token, expanded.drop_last()).push(expanded.last())
    } else {
        related_terms(token, expanded.drop_last())
    }
}

/// The part of the expanded tsquery for one token: the escaped token alone,
/// or in parentheses with its escaped related terms as alternatives.
pub open spec fn expanded_part(token: Seq<char>, expanded: Seq<Seq<char>>) -> Seq<char> {
    let related = related_terms(token, expanded);
    if related.len() == 0 {
        escape_fts(token)
    } else {
        "("@ + join(seq![escape_fts(token)] + escape_all(related), " | "@) + ")"@
    }
}

/// Whether a term contains the token or the token contains the term.
pub open spec fn contains_either_way(token: Seq<char>) -> spec_fn(Seq<char>) -> bool {
    |x: Seq<char>| contains_seq(x, token) || contains_seq(token, x)
}

proof fn lemma_related_terms_filter(token: Seq<char>, expanded: Seq<Seq<char>>)
    ensures
        related_terms(token, expanded) == expanded.filter(contains_either_way(token)),
        related_terms(token, expanded).len() > 0 <==> exists|k: int|
            0 <= k < expanded.len() && (contains_seq(#[trigger] expanded[k], token)
                || contains_seq(token, expanded[k])),
    decreases expanded.len(),
{
    reveal(Seq::filter);
    if expanded.len() > 0 {
        let front = expanded.drop_last();
        lemma_related_terms_filter(token, front);
        if related_terms(token, expanded).len() > 0 {
            if !terms_related(token, expanded.last()) {
                let k = choose|k: int|
                    0 <= k < front.len() && (contains_seq(#[trigger] front[k], token)
                        || contains_seq(token, front[k]));
                assert(expanded[k] == front[k]);
            } else {
                assert(expanded[expanded.len() - 1] == expanded.last());
            }
        }
        if exists|k: int|
            0 <= k < expanded.len() && (contains_seq(#[trigger] expanded[k], token)
                || contains_seq(token, expanded[k])) {
            let k = choose|k: int|
                0 <= k < expanded.len() && (contains_seq(#[trigger] expanded[k], token)
                    || contains_seq(token, expanded[k]));
            if k < front.len() {
                assert(front[k] == expanded[k]);
            }
        }
    }
}

/// Law: in the expanded tsquery, a token's part lists as alternatives, after
/// the token itself, exactly the expanded terms that contain the token or
/// that the token contains, in their order; a token with no such term stands
/// alone. So an expanded term that is a substring of the token is listed, and
/// so is one that has the token as a substring.
pub proof fn lemma_expanded_part_alternatives(token: Seq<char>, expanded: Seq<Seq<char>>)
    ensures
        (exists|k: int|
            0 <= k < expanded.len() && (contains_seq(#[trigger] expanded[k], token)
                || contains_seq(token, expanded[k]))) ==> expanded_part(token, expanded) == "("@
            + join(
            seq![escape_fts(token)] + escape_all(expanded.filter(contains_either_way(token))),
            " | "@,
        ) + ")"@,
        (forall|k: int|
            0 <= k < expanded.len() ==> !contains_seq(#[trigger] expanded[k], token)
                && !contains_seq(token, expanded[k])) ==> expanded_part(token, expanded)
            == escape_fts(token),
{
    lemma_related_terms_filter(token, expanded);
}

/// The expanded tsquery: one part per token, joined with ` & `.
pub open spec fn expanded_fts_query(tokens: Seq<Seq<char>>, expanded: Seq<Seq<char>>) -> Seq<
    char,
> {
    join(tokens.map_values(|t: Seq<char>| expanded_part(t, expanded)), " & "@)
}

/// Processed query output containing all representations needed for hybrid
/// search.
#[derive(Debug, Clone)]
pub struct ProcessedQuery {
    /// Original query string.
    pub original: String,
    /// Tokenized terms compatible with FTS indexing.
    pub tokens: Vec<String>,
    /// Query embedding vector, each component as the bit pattern of its `f32`.
    pub embedding: Vec<u32>,
    /// Expanded query terms with synonyms and related concepts.
    pub expanded_terms: Vec<String>,
    /// Detected search mode.
    pub mode: SearchMode,
}

/// Remove the tsquery operators from a term and trim it.
fn escape_fts_term(term: &str) -> (r: String)
    ensures
        r@ == escape_fts(term@),
{
    let cs = chars_of(term);
    let mut kept: Vec<char> = Vec::new();
    let mut i: usize = 0;
    while i < cs.len()
        invariant
            i <= cs.len(),
            cs@ == term@,
            kept@ == strip_fts_special(cs@.take(i as int)),
        decreases cs.len() - i,
    {
        let c = cs[i];
        assert(cs@.take(i + 1).drop_last() =~= cs@.take(i as int));
        if !(c == '&' || c == '|' || c == '!' || c == '(' || c == ')' || c == '<' || c == '>'
            || c == '\'' || c == '"') {
            kept.push(c);
        }
        i = i + 1;
    }
    assert(cs@.take(cs.len() as int) =~= cs@);
    let t = trim_chars(&kept);
    string_of(&t)
}

/// Escape each term.
fn escape_terms(terms: &Vec<String>) -> (r: Vec<String>)
    ensures
        views(r@) == escape_all(views(terms@)),
{
    let mut r: Vec<String> = Vec::new();
    let mut i: usize = 0;
    while i < terms.len()
        invariant
            i <= terms.len(),
            views(r@) == escape_all(views(terms@)).take(i as int),
        decreases terms.len() - i,
    {
        let e = escape_fts_term(terms[i].as_str());
        let ghost before = r@;
        r.push(e);
        assert(views(r@) =~= views(before).push(e@));
        assert(views(r@) =~= escape_all(views(terms@)).take(i + 1));
        i = i + 1;
    }
    assert(escape_all(views(terms@)).take(terms.len() as int) =~= escape_all(views(terms@)));
    r
}

/// The expanded terms related to a token.
fn related_to(token: &str, expanded: &Vec<String>) -> (r: Vec<String>)
    ensures
        views(r@) == related_terms(token@, views(expanded@)),
{
    let ghost ex = views(expanded@);
    let mut r: Vec<String> = Vec::new();
    let mut i: usize = 0;
    while i < expanded.len()
        invariant
            i <= expanded.len(),
            ex == views(expanded@),
            views(r@) == related_terms(token@, ex.take(i as int)),
        decreases expanded.len() - i,
    {
        let t = expanded[i].as_str();
        assert(ex.take(i + 1).drop_last() =~= ex.take(i as int));
        if str_contains(t, token) || str_contains(token, t) {
            let ghost before = r@;
            r.push(t.to_owned());
            assert(views(r@) =~= views(before).push(t@));
        }
        i = i + 1;
    }
    assert(ex.take(expanded.len() as int) =~= ex);
    r
}

impl ProcessedQuery {
    /// Create a new processed query.
    pub fn new(
        original: String,
        tokens: Vec<String>,
        embedding: Vec<u32>,
        expanded_terms: Vec<String>,
        mode: SearchMode,
    ) -> (q: Self)
        ensures
            q.original == original,
            q.tokens == tokens,
            q.embedding == embedding,
            q.expanded_terms == expanded_terms,
            q.mode == mode,
    {
        ProcessedQuery { original, tokens, embedding, expanded_terms, mode }
    }

    /// All query terms, tokens and expanded terms, sorted and deduplicated.
    pub fn all_terms(&self) -> (r: Vec<String>)
        ensures
            strictly_sorted(views(r@)),
            views(r@).to_set() == views(self.tokens@).to_set() + views(
                self.expanded_terms@,
            ).to_set(),
    {
        let mut r: Vec<String> = Vec::new();
        let ghost ts = views(self.tokens@);
        let ghost es = views(self.expanded_terms@);
        let mut i: usize = 0;
        assert(views(r@).to_set() =~= ts.take(0).to_set());
        while i < self.tokens.len()
            invariant
                i <= self.tokens.len(),
                ts == views(self.tokens@),
                strictly_sorted(views(r@)),
                views(r@).to_set() == ts.take(i as int).to_set(),
            decreases self.tokens.len() - i,
        {
            insert_sorted(&mut r, self.tokens[i].clone());
            proof {
                assert(ts.take(i + 1) =~= ts.take(i as int).push(ts[i as int]));
                ts.take(i as int).lemma_push_to_set_commute(ts[i as int]);
            }
            i = i + 1;
        }
        assert(ts.take(self.tokens.len() as int) =~= ts);
        let mut j: usize = 0;
        assert(views(r@).to_set() =~= ts.to_set() + es.take(0).to_set());
        while j < self.expanded_terms.len()
            invariant
                j <= self.expanded_terms.len(),
                es == views(self.expanded_terms@),
                strictly_sorted(views(r@)),
                views(r@).to_set() == ts.to_set() + es.take(j as int).to_set(),
            decreases self.expanded_terms.len() - j,
        {
            insert_sorted(&mut r, self.expanded_terms[j].clone());
            proof {
                assert(es.take(j + 1) =~= es.take(j as int).push(es[j as int]));
                es.take(j as int).lemma_push_to_set_commute(es[j as int]);
                assert(views(r@).to_set() =~= ts.to_set() + es.take(j + 1).to_set());
            }
            j = j + 1;
        }
        assert(es.take(self.expanded_terms.len() as int) =~= es);
        r
    }

    /// The tsquery for the tokens: escaped tokens joined with ` & `, empty
    /// when there are no tokens.
    pub fn fts_query_string(&self) -> (r: String)
        ensures
            r@ == fts_query(views(self.tokens@)),
    {
        let escaped = escape_terms(&self.tokens);
        join_strings(&escaped, " & ")
    }

    /// The tsquery with synonyms: each token with its related expanded terms
    /// as `|` alternatives, the parts joined with ` & `.
    pub fn expanded_fts_query_string(&self) -> (r: String)
        ensures
            r@ == expanded_fts_query(views(self.tokens@), views(self.expanded_terms@)),
    {
        let ghost ts = views(self.tokens@);
        let ghost ex = views(self.expanded_terms@);
        let ghost all_parts = ts.map_values(|t: Seq<char>| expanded_part(t, ex));
        let mut parts: Vec<String> = Vec::new();
        let mut i: usize = 0;
        while i < self.tokens.len()
            invariant
                i <= self.tokens.len(),
                ts == views(self.tokens@),
                ex == views(self.expanded_terms@),
                all_parts == ts.map_values(|t: Seq<char>| expanded_part(t, ex)),
                views(parts@) == all_parts.take(i as int),
            decreases self.tokens.len() - i,
        {
            let token = self.tokens[i].as_str();
            let related = related_to(token, &self.expanded_terms);
            let part = if related.len() == 0 {
                escape_fts_term(token)
            } else {
                let mut alternatives: Vec<String> = Vec::new();
                alternatives.push(escape_fts_term(token));
                let escaped = escape_terms(&related);
                let mut k: usize = 0;
                while k < escaped.len()
                    invariant
                        k <= escaped.len(),
                        alternatives@.len() == k + 1,
                        views(alternatives@) == seq![escape_fts(token@)] + views(
                            escaped@,
                        ).take(k as int),
                    decreases escaped.len() - k,
                {
                    let ghost before = alternatives@;
                    alternatives.push(escaped[k].clone());
                    assert(views(alternatives@) =~= views(before).push(escaped@[k as int]@));
                    assert(views(alternatives@) =~= seq![escape_fts(token@)] + views(
                        escaped@,
                    ).take(k + 1));
                    k = k + 1;
                }
                assert(views(escaped@).take(escaped.len() as int) =~= views(escaped@));
                let mut p = String::new();
                string_push_str(&mut p, "(");
                let inner = join_strings(&alternatives, " | ");
                string_push_str(&mut p, inner.as_str());
                string_push_str(&mut p, ")");
                assert(p@ =~= "("@ + inner@ + ")"@);
                p
            };
            assert(part@ == expanded_part(token@, ex));
            let ghost before = parts@;
            parts.push(part);
            assert(views(parts@) =~= views(before).push(part@));
            assert(views(parts@) =~= all_parts.take(i + 1));
            i = i + 1;
        }
        assert(all_parts.take(self.tokens.len() as int) =~= all_parts);
        join_strings(&parts, " & ")
    }
}

} // verus!
