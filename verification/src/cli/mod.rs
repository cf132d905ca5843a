//! Command-line helpers: argument checks, number formatting, throttle
//! parsing and error classification.

pub mod format;
pub mod git;

use vstd::prelude::*;
use crate::embedding::error::{api_error_message, embedding_error_message, ApiError, EmbeddingError};
use crate::order::views;
use crate::search::errors::{pipeline_diagnosis, ErrorType, SearchErrorDetails};
use crate::search::pipeline::PipelineError;
use crate::strmap::lookup;
use crate::text::{
    chars_of, concat, concat3, contains_seq, ends_with_seq, i64_to_decimal_chars, join,
    join_strings, lowercase, signed_decimal, str_contains, str_equal, str_to_lowercase, str_trim,
    string_of, trim_seq,
};

verus! {

/// Exit code for runtime errors (transient, may retry).
pub const EXIT_RUNTIME_ERROR: i32 = 1;

/// Exit code for configuration errors (persistent, do not retry).
pub const EXIT_CONFIG_ERROR: i32 = 2;

/// The supported embedding providers, lowercase.
pub open spec fn is_supported_provider(name: Seq<char>) -> bool {
    name == "ollama"@ || name == "openai"@ || name == "google"@
}

/// The message for an unsupported provider.
pub open spec fn invalid_provider_message(s: Seq<char>) -> Seq<char> {
    "Invalid provider: '"@ + s + "'. Supported providers: ollama, openai, google"@
}

/// Validate a provider name: supported names are accepted in lowercase,
/// anything else is refused with a message naming the choices.
pub fn validate_provider(s: &str) -> (r: Result<String, String>)
    ensures
        match r {
            Ok(v) => is_supported_provider(lowercase(s@)) && v@ == lowercase(s@),
            Err(m) => !is_supported_provider(lowercase(s@)) && m@ == invalid_provider_message(s@),
        },
{
    let lower = str_to_lowercase(s);
    let l = lower.as_str();
    if str_equal(l, "ollama") || str_equal(l, "openai") || str_equal(l, "google") {
        Ok(lower)
    } else {
        Err(concat3("Invalid provider: '", s, "'. Supported providers: ollama, openai, google"))
    }
}

/// Whether a comma goes before position `i` of a number `len` characters
/// long: at every third position counted from the end, never first.
pub open spec fn comma_before(len: int, i: int) -> bool {
    i > 0 && (len - i) % 3 == 0
}

/// The first `i` characters of `cs` with thousands separators inserted.
pub open spec fn grouped_prefix(cs: Seq<char>, i: int) -> Seq<char>
    decreases i,
{
    if i <= 0 {
        Seq::empty()
    } else if comma_before(cs.len() as int, i - 1) {
        grouped_prefix(cs, i - 1) + seq![',', cs[i - 1]]
    } else {
        grouped_prefix(cs, i - 1).push(cs[i - 1])
    }
}

/// A number written with thousands separators: its decimal form, sign
/// included, with a comma before every third character counted from the
/// end (a minus sign counts as one of them, as in `-,123`).
pub open spec fn grouped_number(n: int) -> Seq<char> {
    grouped_prefix(signed_decimal(n), signed_decimal(n).len() as int)
}

/// Format a number with thousands separators: 487329 becomes "487,329".
/// The sign is grouped with the digits: -123456 becomes "-,123,456".
pub fn format_number(n: i64) -> (r: String)
    ensures
        r@ == grouped_number(n as int),
{
    let cs = i64_to_decimal_chars(n);
    let mut out: Vec<char> = Vec::new();
    let mut i: usize = 0;
    while i < cs.len()
        invariant
            i <= cs.len(),
            out@ == grouped_prefix(cs@, i as int),
        decreases cs.len() - i,
    {
        if i > 0 && (cs.len() - i) % 3 == 0 {
            out.push(',');
        }
        out.push(cs[i]);
        assert(out@ =~= grouped_prefix(cs@, i + 1));
        i = i + 1;
    }
    string_of(&out)
}

/// An ASCII decimal digit.
pub open spec fn is_digit(c: char) -> bool {
    '0' <= c && c <= '9'
}

/// The value of a string of decimal digits.
pub open spec fn digits_value(s: Seq<char>) -> nat
    decreases s.len(),
{
    if s.len() == 0 {
        0
    } else {
        digits_value(s.drop_last()) * 10 + ((s.last() as u32) - 48) as nat
    }
}

/// Every character is a decimal digit.
pub open spec fn all_digits(s: Seq<char>) -> bool {
    forall|i: int| 0 <= i < s.len() ==> is_digit(#[trigger] s[i])
}

/// `u64::from_str`: an optional `+` and then one or more decimal digits whose
/// value fits.
pub open spec fn parse_u64_spec(s: Seq<char>) -> Option<u64> {
    let body = if s.len() > 0 && s[0] == '+' {
        s.drop_first()
    } else {
        s
    };
    if body.len() > 0 && all_digits(body) && digits_value(body) <= u64::MAX {
        Some(digits_value(body) as u64)
    } else {
        None
    }
}

/// A longer prefix of digits has at least the value of a shorter one.
proof fn lemma_digits_value_grows(s: Seq<char>, i: int, j: int)
    requires
        0 <= i <= j <= s.len(),
        all_digits(s),
    ensures
        digits_value(s.take(i)) <= digits_value(s.take(j)),
    decreases j - i,
{
    if i < j {
        lemma_digits_value_grows(s, i, j - 1);
        assert(s.take(j).drop_last() =~= s.take(j - 1));
        assert(is_digit(s[j - 1]));
    }
}

/// Parse a decimal `u64`, as `str::parse::<u64>` does.
pub fn parse_u64(s: &str) -> (r: Option<u64>)
    ensures
        r == parse_u64_spec(s@),
{
    let cs = chars_of(s);
    let start: usize = if cs.len() > 0 && cs[0] == '+' {
        1
    } else {
        0
    };
    let ghost body = if s@.len() > 0 && s@[0] == '+' {
        s@.drop_first()
    } else {
        s@
    };
    assert(body =~= cs@.subrange(start as int, cs.len() as int));
    if start >= cs.len() {
        return None;
    }
    let mut k: usize = start;
    while k < cs.len()
        invariant
            start <= k <= cs.len(),
            cs@ == s@,
            body == (if s@.len() > 0 && s@[0] == '+' {
                s@.drop_first()
            } else {
                s@
            }),
            body == cs@.subrange(start as int, cs.len() as int),
            forall|j: int| start <= j < k ==> is_digit(#[trigger] cs@[j]),
        decreases cs.len() - k,
    {
        if !('0' <= cs[k] && cs[k] <= '9') {
            assert(!is_digit(body[k - start]));
            return None;
        }
        k = k + 1;
    }
    assert(all_digits(body)) by {
        assert forall|j: int| 0 <= j < body.len() implies is_digit(#[trigger] body[j]) by {
            assert(body[j] == cs@[j + start]);
        }
    }
    let mut value: u64 = 0;
    let mut i: usize = start;
    while i < cs.len()
        invariant
            start <= i <= cs.len(),
            cs@ == s@,
            start < cs.len(),
            body == (if s@.len() > 0 && s@[0] == '+' {
                s@.drop_first()
            } else {
                s@
            }),
            body == cs@.subrange(start as int, cs.len() as int),
            all_digits(body),
            value == digits_value(body.take(i - start)),
        decreases cs.len() - i,
    {
        let ghost t = body.take(i - start + 1);
        assert(t.drop_last() =~= body.take(i - start));
        assert(t.last() == cs@[i as int]);
        assert(is_digit(body[i - start]));
        let d: u64 = ((cs[i] as u32) - 48) as u64;
        match value.checked_mul(10) {
            Some(tens) => match tens.checked_add(d) {
                Some(next) => {
                    value = next;
                },
                None => {
                    proof {
                        lemma_digits_value_grows(body, i - start + 1, body.len() as int);
                        assert(body.take(body.len() as int) =~= body);
                    }
                    return None;
                },
            },
            None => {
                proof {
                    lemma_digits_value_grows(body, i - start + 1, body.len() as int);
                    assert(body.take(body.len() as int) =~= body);
                }
                return None;
            },
        }
        i = i + 1;
    }
    assert(body.take(body.len() as int) =~= body);
    Some(value)
}

/// Why a throttle setting was refused.
#[derive(Debug, Clone, PartialEq, Eq)]
pub enum ThrottleError {
    /// A value with a unit that is not a whole number.
    InvalidValue(String),
    /// A value without a unit that is not a whole number.
    InvalidUnitless(String),
}

/// The message of a throttle error.
pub open spec fn throttle_error_message(e: ThrottleError) -> Seq<char> {
    match e {
        ThrottleError::InvalidValue(v) => "Invalid throttle value: "@ + v@,
        ThrottleError::InvalidUnitless(v) => "Invalid throttle value: "@ + v@
            + ". Use format like '2s' or '500ms'"@,
    }
}

impl ThrottleError {
    /// The error's message.
    pub fn message(&self) -> (s: String)
        ensures
            s@ == throttle_error_message(*self),
    {
        match self {
            ThrottleError::InvalidValue(v) => concat("Invalid throttle value: ", v.as_str()),
            ThrottleError::InvalidUnitless(v) => concat3(
                "Invalid throttle value: ",
                v.as_str(),
                ". Use format like '2s' or '500ms'",
            ),
        }
    }
}

/// Whether a trimmed throttle setting carries a unit, `ms` or `s`.
pub open spec fn has_time_unit(t: Seq<char>) -> bool {
    ends_with_seq(t, "ms"@) || ends_with_seq(t, "s"@)
}

/// The milliseconds a throttle setting stands for: `ms` gives milliseconds,
/// `s` or no unit gives seconds; `None` when the number does not parse.
pub open spec fn throttle_millis(throttle: Seq<char>) -> Option<int> {
    let t = trim_seq(throttle);
    if ends_with_seq(t, "ms"@) {
        match parse_u64_spec(t.take(t.len() - 2)) {
            Some(v) => Some(v as int),
            None => None,
        }
    } else if ends_with_seq(t, "s"@) {
        match parse_u64_spec(t.take(t.len() - 1)) {
            Some(v) => Some(v * 1000),
            None => None,
        }
    } else {
        match parse_u64_spec(t) {
            Some(v) => Some(v * 1000),
            None => None,
        }
    }
}

/// The characters of `s` without its last `n` ones.
fn drop_suffix(s: &str, n: usize) -> (r: String)
    requires
        n <= s@.len(),
    ensures
        r@ == s@.take(s@.len() - n),
{
    let cs = chars_of(s);
    let mut out: Vec<char> = Vec::new();
    let mut i: usize = 0;
    while i < cs.len() - n
        invariant
            n <= cs.len(),
            cs@ == s@,
            i <= cs.len() - n,
            out@ == cs@.take(i as int),
        decreases cs.len() - n - i,
    {
        out.push(cs[i]);
        assert(out@ =~= cs@.take(i + 1));
        i = i + 1;
    }
    string_of(&out)
}

/// Parse a throttle setting such as "2s" or "500ms" into milliseconds; a
/// number without a unit is taken as seconds.
pub fn parse_throttle(throttle: &str) -> (r: Result<u64, ThrottleError>)
    requires
        throttle_millis(throttle@) matches Some(ms) ==> ms <= u64::MAX,
    ensures
        match r {
            Ok(ms) => throttle_millis(throttle@) == Some(ms as int),
            Err(e) => throttle_millis(throttle@) is None && match e {
                ThrottleError::InvalidValue(v) => v@ == trim_seq(throttle@) && has_time_unit(
                    trim_seq(throttle@),
                ),
                ThrottleError::InvalidUnitless(v) => v@ == trim_seq(throttle@) && !has_time_unit(
                    trim_seq(throttle@),
                ),
            },
        },
{
    let t = str_trim(throttle);
    let ts = t.as_str();
    if crate::text::str_ends_with(ts, "ms") {
        proof {
            reveal_strlit("ms");
        }
        let number = drop_suffix(ts, 2);
        match parse_u64(number.as_str()) {
            Some(v) => Ok(v),
            None => Err(ThrottleError::InvalidValue(t)),
        }
    } else if crate::text::str_ends_with(ts, "s") {
        proof {
            reveal_strlit("s");
        }
        let number = drop_suffix(ts, 1);
        match parse_u64(number.as_str()) {
            Some(v) => Ok(v * 1000),
            None => Err(ThrottleError::InvalidValue(t)),
        }
    } else {
        match parse_u64(ts) {
            Some(v) => Ok(v * 1000),
            None => Err(ThrottleError::InvalidUnitless(t)),
        }
    }
}

/// The emoji shown for a context item's role, matched without regard to
/// ASCII case.
pub open spec fn role_emoji_for(lower: Seq<char>) -> Seq<char> {
    if lower == "primary"@ {
        "\u{1f4c4}"@
    } else if lower == "caller"@ {
        "\u{1f517}"@
    } else if lower == "callee"@ {
        "\u{1f4e4}"@
    } else if lower == "test"@ {
        "\u{1f9ea}"@
    } else if lower == "doc"@ {
        "\u{1f4da}"@
    } else if lower == "config"@ {
        "\u{2699}\u{fe0f}"@
    } else if lower == "hook"@ {
        "\u{1fa9d}"@
    } else if lower == "jsx_parent"@ {
        "\u{2b06}\u{fe0f}"@
    } else if lower == "jsx_child"@ {
        "\u{2b07}\u{fe0f}"@
    } else {
        "\u{1f4ce}"@
    }
}

/// Map a context item role to an emoji for human-readable output.
pub fn role_emoji(role: &str) -> (r: &'static str)
    ensures
        r@ == role_emoji_for(lowercase(role@)),
{
    let lowered = str_to_lowercase(role);
    let l = lowered.as_str();
    if str_equal(l, "primary") {
        "\u{1f4c4}"
    } else if str_equal(l, "caller") {
        "\u{1f517}"
    } else if str_equal(l, "callee") {
        "\u{1f4e4}"
    } else if str_equal(l, "test") {
        "\u{1f9ea}"
    } else if str_equal(l, "doc") {
        "\u{1f4da}"
    } else if str_equal(l, "config") {
        "\u{2699}\u{fe0f}"
    } else if str_equal(l, "hook") {
        "\u{1fa9d}"
    } else if str_equal(l, "jsx_parent") {
        "\u{2b06}\u{fe0f}"
    } else if str_equal(l, "jsx_child") {
        "\u{2b07}\u{fe0f}"
    } else {
        "\u{1f4ce}"
    }
}

/// Where an error to classify came from: a pipeline error, an embedding
/// error, or any other error known by its message.
#[derive(Debug, Clone, PartialEq, Eq)]
pub enum ErrorSource {
    Pipeline(PipelineError),
    Embedding(EmbeddingError),
    Message(String),
}

/// The name of an error type in error records.
pub open spec fn error_type_name(t: ErrorType) -> Seq<char> {
    match t {
        ErrorType::EmbeddingProvider => "embedding_provider"@,
        ErrorType::Database => "database"@,
        ErrorType::Validation => "validation"@,
        ErrorType::Timeout => "timeout"@,
        ErrorType::NotFound => "not_found"@,
        ErrorType::Unknown => "unknown"@,
    }
}

/// A suggestion points at credentials or environment variables.
pub open spec fn config_suggestion(s: Seq<char>) -> bool {
    contains_seq(s, "API_KEY"@) || contains_seq(s, "credentials"@) || contains_seq(
        s,
        "environment variable"@,
    )
}

/// Some suggestion points at credentials or environment variables.
pub open spec fn suggests_config(suggestions: Seq<Seq<char>>) -> bool {
    exists|i: int| 0 <= i < suggestions.len() && config_suggestion(#[trigger] suggestions[i])
}

/// The classification of a pipeline error: its type's name, its suggestions
/// joined with `; `, and exit code 2 for a provider error that names a
/// provider and points at credentials or environment variables, 1 otherwise.
pub open spec fn pipeline_classification(e: PipelineError) -> (Seq<char>, Seq<char>, i32) {
    let d = pipeline_diagnosis(e);
    let code = if d.error_type == ErrorType::EmbeddingProvider && lookup(
        d.context,
        "provider"@,
    ) is Some && suggests_config(d.suggestions) {
        EXIT_CONFIG_ERROR
    } else {
        EXIT_RUNTIME_ERROR
    };
    let suggestion = if d.suggestions.len() == 0 {
        "Check logs for details"@
    } else {
        join(d.suggestions, "; "@)
    };
    (error_type_name(d.error_type), suggestion, code)
}

/// An API error that means the credentials were refused.
pub open spec fn refused_credentials(a: ApiError) -> bool {
    let low = lowercase(api_error_message(a));
    ||| a is Authentication
    ||| a is QuotaExceeded
    ||| contains_seq(low, "401"@)
    ||| contains_seq(low, "403"@)
    ||| contains_seq(low, "unauthorized"@)
    ||| contains_seq(low, "forbidden"@)
    ||| contains_seq(low, "authentication"@)
}

/// The classification of an embedding error.
pub open spec fn embedding_classification(e: EmbeddingError) -> (Seq<char>, Seq<char>, i32) {
    if e matches EmbeddingError::Api(a) && refused_credentials(a) {
        (
            "config_error"@,
            "Invalid or expired API key. Check your API key configuration."@,
            EXIT_CONFIG_ERROR,
        )
    } else if e is Config || e is InvalidInput {
        ("embedding_provider"@, "Check your embedding provider configuration"@, EXIT_CONFIG_ERROR)
    } else {
        (
            "embedding_provider"@,
            "Embedding provider error: "@ + embedding_error_message(e),
            EXIT_RUNTIME_ERROR,
        )
    }
}

/// The classification of any other error, by its lowercased message.
pub open spec fn message_classification(msg: Seq<char>) -> (Seq<char>, Seq<char>, i32) {
    let low = lowercase(msg);
    if contains_seq(low, "config"@) || contains_seq(low, "api_key"@) || contains_seq(
        low,
        "provider"@,
    ) || (contains_seq(low, "sqlite-vec"@) && contains_seq(low, "not available"@)) || (
    contains_seq(low, "vector"@) && contains_seq(low, "not available"@)) {
        ("config_error"@, "Check your configuration and environment variables"@, EXIT_CONFIG_ERROR)
    } else if (contains_seq(low, "database"@) || contains_seq(low, "connection"@)) && (
    contains_seq(low, "no such file"@) || contains_seq(low, "not found"@)) {
        ("config_error"@, "Repository not indexed. Run scan command first."@, EXIT_CONFIG_ERROR)
    } else if contains_seq(low, "database"@) || contains_seq(low, "connection"@) {
        ("database"@, "Check database connectivity and permissions"@, EXIT_RUNTIME_ERROR)
    } else if contains_seq(low, "chunk"@) && contains_seq(low, "not found"@) {
        ("not_found"@, "The requested chunk may not be indexed"@, EXIT_RUNTIME_ERROR)
    } else {
        ("unknown"@, "Please report this error with full details"@, EXIT_RUNTIME_ERROR)
    }
}

/// The classification of an error: type name, suggestion and exit code.
pub open spec fn classification(source: ErrorSource) -> (Seq<char>, Seq<char>, i32) {
    match source {
        ErrorSource::Pipeline(p) => pipeline_classification(p),
        ErrorSource::Embedding(e) => embedding_classification(e),
        ErrorSource::Message(m) => message_classification(m@),
    }
}

/// Whether some suggestion points at credentials or environment variables.
fn any_config_suggestion(suggestions: &Vec<String>) -> (b: bool)
    ensures
        b == suggests_config(views(suggestions@)),
{
    let mut i: usize = 0;
    while i < suggestions.len()
        invariant
            i <= suggestions.len(),
            forall|j: int| 0 <= j < i ==> !config_suggestion(#[trigger] views(suggestions@)[j]),
        decreases suggestions.len() - i,
    {
        let s = suggestions[i].as_str();
        if str_contains(s, "API_KEY") || str_contains(s, "credentials") || str_contains(
            s,
            "environment variable",
        ) {
            assert(config_suggestion(views(suggestions@)[i as int]));
            return true;
        }
        i = i + 1;
    }
    false
}

/// The name of an error type.
fn error_type_label(t: ErrorType) -> (s: &'static str)
    ensures
        s@ == error_type_name(t),
{
    match t {
        ErrorType::EmbeddingProvider => "embedding_provider",
        ErrorType::Database => "database",
        ErrorType::Validation => "validation",
        ErrorType::Timeout => "timeout",
        ErrorType::NotFound => "not_found",
        ErrorType::Unknown => "unknown",
    }
}

/// The classification as owned strings.
fn classified(name: &str, suggestion: &str, code: i32) -> (r: (String, String, i32))
    ensures
        r.0@ == name@,
        r.1@ == suggestion@,
        r.2 == code,
{
    (name.to_owned(), suggestion.to_owned(), code)
}

/// Classify an error into its type name, an actionable suggestion and the
/// exit code: 2 for configuration problems that retrying will not fix, 1 for
/// runtime failures.
pub fn classify_error(source: &ErrorSource) -> (r: (String, String, i32))
    ensures
        (r.0@, r.1@, r.2) == classification(*source),
{
    match source {
        ErrorSource::Pipeline(pipeline_error) => {
            let details = SearchErrorDetails::from_pipeline_error(pipeline_error);
            let provider_error = match details.error_type {
                ErrorType::EmbeddingProvider => true,
                _ => false,
            };
            let code = if provider_error && details.context.contains_key("provider")
                && any_config_suggestion(&details.suggestions) {
                EXIT_CONFIG_ERROR
            } else {
                EXIT_RUNTIME_ERROR
            };
            let suggestion = if details.suggestions.len() == 0 {
                "Check logs for details".to_owned()
            } else {
                join_strings(&details.suggestions, "; ")
            };
            proof {
                crate::strmap::lemma_lookup_map(
                    details.context.entries(),
                    "provider"@,
                    crate::search::errors::string_text(),
                );
            }
            (error_type_label(details.error_type).to_owned(), suggestion, code)
        },
        ErrorSource::Embedding(embedding_error) => {
            let refused = match embedding_error {
                EmbeddingError::Api(api_error) => {
                    let by_kind = match api_error {
                        ApiError::Authentication(_) => true,
                        ApiError::QuotaExceeded(_) => true,
                        _ => false,
                    };
                    let msg = api_error.message();
                    let low = str_to_lowercase(msg.as_str());
                    let l = low.as_str();
                    by_kind || str_contains(l, "401") || str_contains(l, "403") || str_contains(
                        l,
                        "unauthorized",
                    ) || str_contains(l, "forbidden") || str_contains(l, "authentication")
                },
                _ => false,
            };
            if refused {
                return classified(
                    "config_error",
                    "Invalid or expired API key. Check your API key configuration.",
                    EXIT_CONFIG_ERROR,
                );
            }
            let config = match embedding_error {
                EmbeddingError::Config(_) => true,
                EmbeddingError::InvalidInput(_) => true,
                _ => false,
            };
            if config {
                return classified(
                    "embedding_provider",
                    "Check your embedding provider configuration",
                    EXIT_CONFIG_ERROR,
                );
            }
            let msg = embedding_error.message();
            let suggestion = concat("Embedding provider error: ", msg.as_str());
            ("embedding_provider".to_owned(), suggestion, EXIT_RUNTIME_ERROR)
        },
        ErrorSource::Message(message) => {
            let lowered = str_to_lowercase(message.as_str());
            let low = lowered.as_str();
            if str_contains(low, "config") || str_contains(low, "api_key") || str_contains(
                low,
                "provider",
            ) || (str_contains(low, "sqlite-vec") && str_contains(low, "not available")) || (
            str_contains(low, "vector") && str_contains(low, "not available")) {
                classified(
                    "config_error",
                    "Check your configuration and environment variables",
                    EXIT_CONFIG_ERROR,
                )
            } else if (str_contains(low, "database") || str_contains(low, "connection")) && (
            str_contains(low, "no such file") || str_contains(low, "not found")) {
                classified(
                    "config_error",
                    "Repository not indexed. Run scan command first.",
                    EXIT_CONFIG_ERROR,
                )
            } else if str_contains(low, "database") || str_contains(low, "connection") {
                classified(
                    "database",
                    "Check database connectivity and permissions",
                    EXIT_RUNTIME_ERROR,
                )
            } else if str_contains(low, "chunk") && str_contains(low, "not found") {
                classified(
                    "not_found",
                    "The requested chunk may not be indexed",
                    EXIT_RUNTIME_ERROR,
                )
            } else {
                classified(
                    "unknown",
                    "Please report this error with full details",
                    EXIT_RUNTIME_ERROR,
                )
            }
        },
    }
}

/// Law: every error is classified with exit code 1 (runtime) or 2
/// (configuration).
pub proof fn lemma_exit_code_known(source: ErrorSource)
    ensures
        classification(source).2 == EXIT_RUNTIME_ERROR || classification(source).2
            == EXIT_CONFIG_ERROR,
{
}

/// A digit character stands for its value.
proof fn lemma_digit_char_value(k: nat)
    requires
        k < 10,
    ensures
        is_digit(crate::text::digit_char(k)),
        ((crate::text::digit_char(k) as u32) - 48) as nat == k,
{
    let b = (48 + k) as u8;
    assert(b == 48 + k);
    assert((b as char) as u32 == b as u32);
}

/// The value of a decimal representation is the number written.
proof fn lemma_decimal_value(n: nat)
    ensures
        all_digits(crate::text::decimal(n)),
        crate::text::decimal(n).len() > 0,
        digits_value(crate::text::decimal(n)) == n,
    decreases n,
{
    let d = crate::text::decimal(n);
    if n < 10 {
        lemma_digit_char_value(n);
        assert(d == seq![crate::text::digit_char(n)]);
        assert(d.drop_last() =~= Seq::<char>::empty());
        assert(digits_value(d.drop_last()) == 0);
        assert(d.last() == crate::text::digit_char(n));
        assert(digits_value(d) == digits_value(d.drop_last()) * 10 + ((d.last() as u32) - 48) as nat);
    } else {
        lemma_decimal_value(n / 10);
        lemma_digit_char_value(n % 10);
        assert((n / 10) * 10 + n % 10 == n) by (nonlinear_arith);
        assert(d.drop_last() =~= crate::text::decimal(n / 10));
        assert(d.last() == crate::text::digit_char(n % 10));
        assert(digits_value(d) == digits_value(d.drop_last()) * 10 + ((d.last() as u32) - 48) as nat);
        assert(digits_value(d) == (n / 10) * 10 + n % 10);
        assert forall|i: int| 0 <= i < d.len() implies is_digit(#[trigger] d[i]) by {
            if i < d.len() - 1 {
                assert(d[i] == crate::text::decimal(n / 10)[i]);
            }
        }
    }
}

/// Law: parsing reads back what writing a number in decimal wrote.
pub proof fn lemma_parse_reads_decimal(n: u64)
    ensures
        parse_u64_spec(crate::text::decimal(n as nat)) == Some(n),
{
    lemma_decimal_value(n as nat);
    let d = crate::text::decimal(n as nat);
    assert(is_digit(d[0]));
}

} // verus!
