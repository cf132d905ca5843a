//! Query processing: mode detection, validation and assembly of the
//! processed query from its tokens, embedding and expansion.

use vstd::prelude::*;
use crate::embedding::error::{embedding_error_message, EmbeddingError};
use crate::order::{strictly_sorted, views};
use crate::search::expander::{default_synonym_table, expansion, QueryExpander};
use crate::search::tokenizer::{default_stop_word_set, tokenize_spec, two_char_operator, Tokenizer};
use crate::search::types::{ProcessedQuery, SearchMode};
use crate::text::{
    char_alphanumeric, char_is_alphanumeric, char_is_lowercase, char_is_uppercase,
    char_is_whitespace, char_lowercase, char_uppercase, char_whitespace, chars_of, concat,
    concat3, contains_seq, decimal, occurs_at, str_contains, trim_chars, trim_seq, u64_to_decimal,
};

verus! {

/// The number of whitespace-separated words, as `split_whitespace` yields them.
pub open spec fn word_count(s: Seq<char>) -> nat
    decreases s.len(),
{
    if s.len() == 0 {
        0
    } else if !char_whitespace(s.last()) && (s.len() == 1 || char_whitespace(
        s[s.len() - 2],
    )) {
        word_count(s.drop_last()) + 1
    } else {
        word_count(s.drop_last())
    }
}

/// Some character satisfies the predicate.
pub open spec fn any_char(s: Seq<char>, p: spec_fn(char) -> bool) -> bool {
    exists|i: int| 0 <= i < s.len() && p(#[trigger] s[i])
}

/// The query holds one of the code operators.
pub open spec fn has_code_operator(q: Seq<char>) -> bool {
    ||| contains_seq(q, "::"@)
    ||| contains_seq(q, "->"@)
    ||| contains_seq(q, "=>"@)
    ||| contains_seq(q, "<-"@)
    ||| contains_seq(q, "!="@)
    ||| contains_seq(q, "=="@)
    ||| contains_seq(q, "<="@)
    ||| contains_seq(q, ">="@)
}

/// Law: a query in which one of the code operators `::`, `->`, `=>`, `<-`,
/// `!=`, `==`, `<=` or `>=` occurs anywhere is searched as code, whatever else
/// it holds.
pub proof fn lemma_code_operator_means_code(q: Seq<char>, i: int)
    requires
        0 <= i,
        i + 1 < q.len(),
        two_char_operator(q.subrange(i, i + 2)),
    ensures
        detected_mode(q) == SearchMode::Code,
{
    reveal_strlit("::");
    reveal_strlit("->");
    reveal_strlit("=>");
    reveal_strlit("<-");
    reveal_strlit("!=");
    reveal_strlit("==");
    reveal_strlit("<=");
    reveal_strlit(">=");
    let w = q.subrange(i, i + 2);
    assert(occurs_at(q, w, i));
    if w == seq![':', ':'] {
        assert("::"@ =~= w);
    } else if w == seq!['-', '>'] {
        assert("->"@ =~= w);
    } else if w == seq!['=', '>'] {
        assert("=>"@ =~= w);
    } else if w == seq!['<', '-'] {
        assert("<-"@ =~= w);
    } else if w == seq!['!', '='] {
        assert("!="@ =~= w);
    } else if w == seq!['=', '='] {
        assert("=="@ =~= w);
    } else if w == seq!['<', '='] {
        assert("<="@ =~= w);
    } else {
        assert(">="@ =~= w);
    }
    assert(has_code_operator(q));
}

/// A query in which none of the code operators `::`, `->`, `=>`, `<-`, `!=`,
/// `==`, `<=`, `>=` occurs.
pub open spec fn free_of_code_operators(q: Seq<char>) -> bool {
    forall|i: int| 0 <= i && i + 1 < q.len() ==> !two_char_operator(#[trigger] q.subrange(i, i + 2))
}

/// Law: the mode of a query, by its shape. A query with both an opening
/// and a closing parenthesis, or of a single word, is searched as code; a
/// query of more than three words, with no code operator, no parentheses
/// pair, no underscore, is searched as text; and one of two or three words
/// without any of these code signs and without mixed letter case is left
/// to automatic selection.
pub proof fn lemma_mode_by_shape(q: Seq<char>)
    ensures
        q.contains('(') && q.contains(')') ==> detected_mode(q) == SearchMode::Code,
        word_count(q) == 1 ==> detected_mode(q) == SearchMode::Code,
        free_of_code_operators(q) && !(q.contains('(') && q.contains(')')) && word_count(q) > 3
            ==> detected_mode(q) == SearchMode::Text,
        free_of_code_operators(q) && !(q.contains('(') && q.contains(')')) && !q.contains('_')
            && (word_count(q) == 2 || word_count(q) == 3) && !(word_count(q) == 2 && any_char(
            q,
            |c: char| char_uppercase(c),
        ) && any_char(q, |c: char| char_lowercase(c))) ==> detected_mode(q)
            == SearchMode::Auto,
{
    if free_of_code_operators(q) {
        reveal_strlit("::");
        reveal_strlit("->");
        reveal_strlit("=>");
        reveal_strlit("<-");
        reveal_strlit("!=");
        reveal_strlit("==");
        reveal_strlit("<=");
        reveal_strlit(">=");
        assert("::"@ =~= seq![':', ':']);
        assert("->"@ =~= seq!['-', '>']);
        assert("=>"@ =~= seq!['=', '>']);
        assert("<-"@ =~= seq!['<', '-']);
        assert("!="@ =~= seq!['!', '=']);
        assert("=="@ =~= seq!['=', '=']);
        assert("<="@ =~= seq!['<', '=']);
        assert(">="@ =~= seq!['>', '=']);
        lemma_no_occurrence(q, "::"@);
        lemma_no_occurrence(q, "->"@);
        lemma_no_occurrence(q, "=>"@);
        lemma_no_occurrence(q, "<-"@);
        lemma_no_occurrence(q, "!="@);
        lemma_no_occurrence(q, "=="@);
        lemma_no_occurrence(q, "<="@);
        lemma_no_occurrence(q, ">="@);
    }
}

proof fn lemma_no_occurrence(q: Seq<char>, op: Seq<char>)
    requires
        free_of_code_operators(q),
        op.len() == 2,
        two_char_operator(op),
    ensures
        !contains_seq(q, op),
{
    if contains_seq(q, op) {
        let i = choose|i: int| occurs_at(q, op, i);
        assert(q.subrange(i, i + 2) == op);
        assert(two_char_operator(q.subrange(i, i + 2)));
    }
}

/// The query looks like a code identifier: it has an underscore, or both
/// upper- and lowercase letters in at most two words.
pub open spec fn has_code_naming(q: Seq<char>) -> bool {
    q.contains('_') || (any_char(q, |c: char| char_uppercase(c)) && any_char(
        q,
        |c: char| char_lowercase(c),
    ) && word_count(q) <= 2)
}

/// The search mode of a query.
pub open spec fn detected_mode(q: Seq<char>) -> SearchMode {
    let words = word_count(q);
    if has_code_operator(q) {
        SearchMode::Code
    } else if q.contains('(') && q.contains(')') {
        SearchMode::Code
    } else if words == 1 || (words == 2 && has_code_naming(q)) {
        SearchMode::Code
    } else if words > 3 {
        SearchMode::Text
    } else {
        SearchMode::Auto
    }
}

/// Longest accepted query, in characters.
pub const MAX_QUERY_CHARS: usize = 1000;

/// Errors that can occur during query processing.
#[derive(Debug, Clone, PartialEq, Eq)]
pub enum QueryProcessorError {
    /// Empty or whitespace-only query.
    EmptyQuery,
    /// Query is too long; its length in characters.
    QueryTooLong(usize),
    /// Query contains no alphanumeric character.
    NoMeaningfulContent,
    /// Embedding generation failed.
    Embedding(EmbeddingError),
    /// Generic error.
    Other(String),
}

/// The outcome of validating a query.
pub open spec fn validation(q: Seq<char>) -> Result<(), QueryProcessorError> {
    if trim_seq(q).len() == 0 {
        Err(QueryProcessorError::EmptyQuery)
    } else if q.len() > MAX_QUERY_CHARS {
        Err(QueryProcessorError::QueryTooLong(q.len() as usize))
    } else if !any_char(q, |c: char| char_alphanumeric(c)) {
        Err(QueryProcessorError::NoMeaningfulContent)
    } else {
        Ok(())
    }
}

/// The message of a query processing error.
pub open spec fn query_error_message(e: QueryProcessorError) -> Seq<char> {
    match e {
        QueryProcessorError::EmptyQuery => "Query is empty or contains only whitespace"@,
        QueryProcessorError::QueryTooLong(n) => "Query is too long: "@ + decimal(n as nat)
            + " characters (max 1000)"@,
        QueryProcessorError::NoMeaningfulContent =>
            "Query contains no meaningful content (alphanumeric characters)"@,
        QueryProcessorError::Embedding(e) => "Embedding generation failed: "@
            + embedding_error_message(e),
        QueryProcessorError::Other(m) => "Query processing error: "@ + m@,
    }
}

impl QueryProcessorError {
    /// The error's message.
    pub fn message(&self) -> (s: String)
        ensures
            s@ == query_error_message(*self),
    {
        match self {
            QueryProcessorError::EmptyQuery => "Query is empty or contains only whitespace".to_owned(),
            QueryProcessorError::QueryTooLong(n) => {
                let d = u64_to_decimal(*n as u64);
                concat3("Query is too long: ", d.as_str(), " characters (max 1000)")
            },
            QueryProcessorError::NoMeaningfulContent =>
                "Query contains no meaningful content (alphanumeric characters)".to_owned(),
            QueryProcessorError::Embedding(e) => {
                let inner = e.message();
                concat("Embedding generation failed: ", inner.as_str())
            },
            QueryProcessorError::Other(m) => concat("Query processing error: ", m.as_str()),
        }
    }
}

/// Whether `c` occurs in `v`.
fn has_char(v: &Vec<char>, c: char) -> (r: bool)
    ensures
        r == v@.contains(c),
{
    let mut i: usize = 0;
    while i < v.len()
        invariant
            i <= v.len(),
            forall|j: int| 0 <= j < i ==> v@[j] != c,
        decreases v.len() - i,
    {
        if v[i] == c {
            return true;
        }
        i = i + 1;
    }
    false
}

/// Count the whitespace-separated words.
fn count_words(v: &Vec<char>) -> (n: usize)
    ensures
        n == word_count(v@),
{
    let mut n: usize = 0;
    let mut i: usize = 0;
    while i < v.len()
        invariant
            i <= v.len(),
            n == word_count(v@.take(i as int)),
            n <= i,
        decreases v.len() - i,
    {
        let starts = !char_is_whitespace(v[i]) && (i == 0 || char_is_whitespace(v[i - 1]));
        let ghost t = v@.take(i + 1);
        assert(t.drop_last() =~= v@.take(i as int));
        assert(t.last() == v@[i as int]);
        if i > 0 {
            assert(t[t.len() - 2] == v@[i - 1]);
        }
        if starts {
            n = n + 1;
        }
        i = i + 1;
    }
    assert(v@.take(v.len() as int) =~= v@);
    n
}

/// Query processor: tokenization, expansion and mode detection.
pub struct QueryProcessor {
    tokenizer: Tokenizer,
    expander: QueryExpander,
}

impl QueryProcessor {
    /// The tokenizer's stop words.
    pub closed spec fn stop_words(&self) -> Set<Seq<char>> {
        self.tokenizer@
    }

    /// The expander's synonym table.
    pub closed spec fn synonyms(&self) -> Seq<(Seq<char>, Seq<Seq<char>>)> {
        self.expander@
    }

    /// A processor with the default tokenizer and expander.
    pub fn new() -> (p: Self)
        ensures
            p.stop_words() == default_stop_word_set(),
            p.synonyms() == default_synonym_table(),
    {
        QueryProcessor { tokenizer: Tokenizer::new(), expander: QueryExpander::new() }
    }

    /// A processor with the given components.
    pub fn with_components(tokenizer: Tokenizer, expander: QueryExpander) -> (p: Self)
        ensures
            p.stop_words() == tokenizer@,
            p.synonyms() == expander@,
    {
        QueryProcessor { tokenizer, expander }
    }

    /// The processor's components.
    pub fn components(&self) -> (c: (&Tokenizer, &QueryExpander))
        ensures
            c.0@ == self.stop_words(),
            c.1@ == self.synonyms(),
    {
        (&self.tokenizer, &self.expander)
    }

    /// Detect the search mode of a query: code operators, a call or a short
    /// identifier give `Code`, more than three words give `Text`, and the
    /// rest is `Auto`.
    pub fn detect_mode(&self, query: &str) -> (m: SearchMode)
        ensures
            m == detected_mode(query@),
    {
        if str_contains(query, "::") || str_contains(query, "->") || str_contains(query, "=>")
            || str_contains(query, "<-") || str_contains(query, "!=") || str_contains(query, "==")
            || str_contains(query, "<=") || str_contains(query, ">=") {
            return SearchMode::Code;
        }
        let cs = chars_of(query);
        if has_char(&cs, '(') && has_char(&cs, ')') {
            return SearchMode::Code;
        }
        let words = count_words(&cs);
        let mut has_upper = false;
        let mut has_lower = false;
        let mut i: usize = 0;
        while i < cs.len()
            invariant
                i <= cs.len(),
                has_upper == any_char(cs@.take(i as int), |c: char| char_uppercase(c)),
                has_lower == any_char(cs@.take(i as int), |c: char| char_lowercase(c)),
            decreases cs.len() - i,
        {
            let ghost t = cs@.take(i + 1);
            assert(forall|j: int| 0 <= j < i ==> t[j] == cs@.take(i as int)[j]);
            assert(t[i as int] == cs@[i as int]);
            if char_is_uppercase(cs[i]) {
                has_upper = true;
            }
            if char_is_lowercase(cs[i]) {
                has_lower = true;
            }
            i = i + 1;
        }
        assert(cs@.take(cs.len() as int) =~= cs@);
        let naming = has_char(&cs, '_') || (has_upper && has_lower && words <= 2);
        if words == 1 || (words == 2 && naming) {
            return SearchMode::Code;
        }
        if words > 3 {
            return SearchMode::Text;
        }
        SearchMode::Auto
    }

    /// Validate a query: it must not be blank, must be at most 1000
    /// characters long and must hold an alphanumeric character.
    pub fn validate_query(&self, query: &str) -> (r: Result<(), QueryProcessorError>)
        ensures
            r == validation(query@),
    {
        let cs = chars_of(query);
        let trimmed = trim_chars(&cs);
        if trimmed.len() == 0 {
            return Err(QueryProcessorError::EmptyQuery);
        }
        let n = cs.len();
        if n > MAX_QUERY_CHARS {
            return Err(QueryProcessorError::QueryTooLong(n));
        }
        let mut i: usize = 0;
        while i < cs.len()
            invariant
                i <= cs.len(),
                cs@ == query@,
                trim_seq(query@).len() > 0,
                query@.len() <= MAX_QUERY_CHARS,
                forall|j: int| 0 <= j < i ==> !char_alphanumeric(#[trigger] cs@[j]),
            decreases cs.len() - i,
        {
            if char_is_alphanumeric(cs[i]) {
                assert(char_alphanumeric(query@[i as int]));
                assert(any_char(query@, |c: char| char_alphanumeric(c)));
                return Ok(());
            }
            i = i + 1;
        }
        Err(QueryProcessorError::NoMeaningfulContent)
    }

    /// Assemble the processed query from the query and the outcome of
    /// embedding it: an empty query or a failed embedding is an error;
    /// otherwise the tokens, their expansion and the detected mode are
    /// gathered with the embedding.
    pub fn process_with_embedding(
        &self,
        query: &str,
        embedding: Result<Vec<u32>, EmbeddingError>,
    ) -> (r: Result<ProcessedQuery, QueryProcessorError>)
        ensures
            query@.len() == 0 ==> r == Err::<ProcessedQuery, QueryProcessorError>(
                QueryProcessorError::EmptyQuery,
            ),
            query@.len() > 0 ==> match embedding {
                Err(e) => r == Err::<ProcessedQuery, QueryProcessorError>(
                    QueryProcessorError::Embedding(e),
                ),
                Ok(v) => r is Ok && r->Ok_0.original@ == query@ && views(r->Ok_0.tokens@)
                    == tokenize_spec(self.stop_words(), query@) && r->Ok_0.embedding == v
                    && strictly_sorted(views(r->Ok_0.expanded_terms@)) && views(
                    r->Ok_0.expanded_terms@,
                ).to_set() == expansion(
                    self.synonyms(),
                    tokenize_spec(self.stop_words(), query@),
                ) && r->Ok_0.mode == detected_mode(query@),
            },
    {
        if query.is_empty() {
            return Err(QueryProcessorError::EmptyQuery);
        }
        let mode = self.detect_mode(query);
        let tokens = self.tokenizer.tokenize(query);
        let embedding = match embedding {
            Ok(v) => v,
            Err(e) => {
                return Err(QueryProcessorError::Embedding(e));
            },
        };
        let expanded = self.expander.expand(tokens.as_slice());
        Ok(ProcessedQuery::new(query.to_owned(), tokens, embedding, expanded, mode))
    }
}

} // verus!
