//! Structured error diagnostics for search failures.
//!
//! A pipeline error is classified into one of six error types and the stage
//! where it happened, with whitelisted context and actionable suggestions.

use vstd::prelude::*;
use crate::embedding::error::{
    embedding_error_message, ApiError, ConfigError, EmbeddingError,
};
use crate::order::views;
use crate::search::executors::executor_error_message;
use crate::search::pipeline::PipelineError;
use crate::search::query_processor::QueryProcessorError;
use crate::strmap::{lemma_update_map, map_entries, update, StrMap};
use crate::text::{
    concat, concat3, contains_seq, decimal, lowercase, str_contains, str_to_lowercase,
    string_list1, string_list2, string_list3, string_list4, u64_to_decimal,
};

verus! {

/// High-level error type categories.
#[derive(Debug, Clone, Copy, PartialEq, Eq, Structural)]
pub enum ErrorType {
    /// Embedding provider failures.
    EmbeddingProvider,
    /// Database-related errors.
    Database,
    /// Query validation errors.
    Validation,
    /// Search execution timeout.
    Timeout,
    /// Repository or content not found.
    NotFound,
    /// Unknown or unexpected errors.
    Unknown,
}

/// Pipeline stage where an error occurred.
#[derive(Debug, Clone, Copy, PartialEq, Eq, Structural)]
pub enum PipelineStage {
    /// Query processing (tokenization, embedding, expansion).
    QueryProcessing,
    /// Search execution (FTS, vector, graph, signals).
    SearchExecution,
    /// Score fusion.
    ScoreFusion,
    /// Result assembly.
    ResultAssembly,
}

/// Context entries: keys with their text.
pub type ContextEntries = Seq<(Seq<char>, Seq<char>)>;

/// What a diagnosis says: type, stage, context and suggestions.
pub struct Diagnosis {
    pub error_type: ErrorType,
    pub stage: PipelineStage,
    pub context: ContextEntries,
    pub suggestions: Seq<Seq<char>>,
}

/// A string by its characters.
pub open spec fn string_text() -> spec_fn(String) -> Seq<char> {
    |s: String| s@
}

/// The entries of a string-valued map by their characters.
pub open spec fn text_entries(es: Seq<(Seq<char>, String)>) -> ContextEntries {
    map_entries(es, string_text())
}

/// A context with one entry.
pub open spec fn ctx1(k: Seq<char>, v: Seq<char>) -> ContextEntries {
    update(Seq::empty(), k, v)
}

/// A context with two entries, bound in order.
pub open spec fn ctx2(k1: Seq<char>, v1: Seq<char>, k2: Seq<char>, v2: Seq<char>) -> ContextEntries {
    update(ctx1(k1, v1), k2, v2)
}

/// A diagnosis.
pub open spec fn diagnosis(
    error_type: ErrorType,
    stage: PipelineStage,
    context: ContextEntries,
    suggestions: Seq<Seq<char>>,
) -> Diagnosis {
    Diagnosis { error_type, stage, context, suggestions }
}

/// Embedding providers recognised in error messages.
#[derive(Debug, Clone, Copy, PartialEq, Eq, Structural)]
pub enum Provider {
    OpenAI,
    Ollama,
    Google,
}

/// The provider named in a lowercased message, checked in this order.
pub open spec fn provider_in(low: Seq<char>) -> Option<Provider> {
    if contains_seq(low, "openai"@) {
        Some(Provider::OpenAI)
    } else if contains_seq(low, "ollama"@) {
        Some(Provider::Ollama)
    } else if contains_seq(low, "google"@) {
        Some(Provider::Google)
    } else {
        None
    }
}

/// The provider's name as it goes into the context.
pub open spec fn provider_name(p: Provider) -> Seq<char> {
    match p {
        Provider::OpenAI => "OpenAI"@,
        Provider::Ollama => "Ollama"@,
        Provider::Google => "Google"@,
    }
}

/// Suggestions for an embedding failure, by provider and message.
pub open spec fn embedding_suggestions(provider: Option<Provider>, low: Seq<char>) -> Seq<
    Seq<char>,
> {
    match provider {
        Some(Provider::OpenAI) => if contains_seq(low, "timeout"@) {
            seq![
                "Check your network connectivity"@,
                "Verify OpenAI API status: https://status.openai.com"@,
                "Try increasing timeout in config"@,
                "Fallback to FTS mode: --mode fts"@,
            ]
        } else if contains_seq(low, "unauthorized"@) || contains_seq(low, "invalid"@)
            || contains_seq(low, "authentication"@) {
            seq![
                "Check OPENAI_API_KEY environment variable"@,
                "Verify API key is valid and not expired"@,
                "Check account billing status"@,
            ]
        } else {
            seq!["Check OpenAI API credentials"@, "Try FTS mode: --mode fts"@]
        },
        Some(Provider::Ollama) => if contains_seq(low, "connection"@) || contains_seq(
            low,
            "refused"@,
        ) {
            seq![
                "Start Ollama service: ollama serve"@,
                "Verify Ollama is running: curl http://localhost:11434"@,
                "Check OLLAMA_HOST environment variable"@,
            ]
        } else if contains_seq(low, "model"@) {
            seq![
                "Pull required model: ollama pull mxbai-embed-large"@,
                "List available models: ollama list"@,
                "Check model name in config"@,
            ]
        } else {
            seq!["Check Ollama service status"@, "Try FTS mode: --mode fts"@]
        },
        Some(Provider::Google) => seq![
            "Check GOOGLE_API_KEY environment variable"@,
            "Verify Google Cloud credentials"@,
            "Check API quota limits"@,
        ],
        None => if contains_seq(low, "timeout"@) {
            seq![
                "Check your network connectivity"@,
                "Verify embedding provider is reachable"@,
                "Try FTS mode: --mode fts"@,
            ]
        } else if contains_seq(low, "unauthorized"@) || contains_seq(low, "authentication"@)
            || contains_seq(low, "credentials"@) {
            seq![
                "Check embedding provider API credentials"@,
                "Verify API key environment variables are set"@,
                "Try FTS mode: --mode fts"@,
            ]
        } else {
            seq!["Check embedding provider configuration"@, "Try FTS mode: --mode fts"@]
        },
    }
}

/// Context and suggestions for a rate limit.
pub open spec fn rate_limit_details(retry_after_ms: u64) -> (ContextEntries, Seq<Seq<char>>) {
    (
        ctx2(
            "provider_error"@,
            "Rate limit exceeded"@,
            "timeout_ms"@,
            decimal(retry_after_ms as nat),
        ),
        seq![
            "Wait "@ + decimal((retry_after_ms / 1000) as nat) + " seconds before retrying"@,
            "Try FTS mode while debugging: --mode fts"@,
        ],
    )
}

/// Context and suggestions for an embedding failure: a rate limit gives its
/// delay; otherwise the provider named in the message and the message itself
/// go into the context, and the suggestions follow provider and message.
pub open spec fn embedding_details(e: EmbeddingError) -> (ContextEntries, Seq<Seq<char>>) {
    match e {
        EmbeddingError::Api(ApiError::RateLimit { retry_after_ms }) => rate_limit_details(
            retry_after_ms,
        ),
        _ => {
            let msg = embedding_error_message(e);
            let low = lowercase(msg);
            let provider = provider_in(low);
            let context = match provider {
                Some(p) => ctx2("provider"@, provider_name(p), "provider_error"@, msg),
                None => ctx1("provider_error"@, msg),
            };
            (context, embedding_suggestions(provider, low))
        },
    }
}

/// Context and suggestions for a database failure.
pub open spec fn database_details(msg: Seq<char>) -> (ContextEntries, Seq<Seq<char>>) {
    let low = lowercase(msg);
    let suggestions = if contains_seq(low, "not found"@) || contains_seq(low, "does not exist"@)
        || contains_seq(low, "not indexed"@) {
        seq![
            "Check repository name and path"@,
            "Run 'maproom status' to list indexed repositories"@,
            "Index repository: 'maproom scan <path>'"@,
        ]
    } else if contains_seq(low, "connection"@) || contains_seq(low, "timeout"@) {
        seq![
            "Check database file exists: ~/.maproom/maproom.db"@,
            "Verify database is not locked by another process"@,
            "Restart daemon: maproom serve"@,
        ]
    } else if contains_seq(low, "corrupt"@) || contains_seq(low, "malformed"@) {
        seq![
            "Backup database: cp ~/.maproom/maproom.db ~/.maproom/maproom.db.backup"@,
            "Rebuild index: maproom scan --rebuild"@,
            "Check disk space"@,
        ]
    } else {
        seq!["Check database connectivity"@, "Verify repository is indexed"@]
    };
    (ctx1("message"@, msg), suggestions)
}

/// The provider named by a missing setting, and what to do about it.
pub open spec fn missing_config_advice(field: Seq<char>) -> (Seq<char>, Seq<char>) {
    if contains_seq(field, "OPENAI"@) || contains_seq(field, "OpenAI"@) || contains_seq(
        field,
        "openai"@,
    ) {
        ("openai"@, "Set OPENAI_API_KEY environment variable"@)
    } else if contains_seq(field, "GOOGLE"@) || contains_seq(field, "Google"@) || contains_seq(
        field,
        "google"@,
    ) {
        ("google"@, "Set GOOGLE_API_KEY and GOOGLE_PROJECT_ID environment variables"@)
    } else if contains_seq(field, "OLLAMA"@) || contains_seq(field, "Ollama"@) || contains_seq(
        field,
        "ollama"@,
    ) {
        ("ollama"@, "Start Ollama service: ollama serve"@)
    } else {
        ("unknown"@, "Set "@ + field + " environment variable"@)
    }
}

/// The provider named by a missing environment variable, and what to do.
pub open spec fn env_var_advice(var: Seq<char>) -> (Seq<char>, Seq<char>) {
    if contains_seq(var, "OPENAI"@) {
        ("openai"@, "Set OPENAI_API_KEY environment variable"@)
    } else if contains_seq(var, "GOOGLE"@) {
        ("google"@, "Set GOOGLE_API_KEY and GOOGLE_PROJECT_ID environment variables"@)
    } else if contains_seq(var, "OLLAMA"@) {
        ("ollama"@, "Start Ollama service or check OLLAMA_URL"@)
    } else {
        ("unknown"@, "Set "@ + var + " environment variable"@)
    }
}

/// The diagnosis of a configuration error.
pub open spec fn config_diagnosis(e: ConfigError) -> Diagnosis {
    let qp = PipelineStage::QueryProcessing;
    match e {
        ConfigError::MissingConfig(field) => {
            let (provider, advice) = missing_config_advice(field@);
            diagnosis(
                ErrorType::EmbeddingProvider,
                qp,
                ctx2("provider"@, provider, "message"@, field@),
                seq![advice, "Check your embedding provider configuration"@],
            )
        },
        ConfigError::InvalidValue { field, reason } => diagnosis(
            ErrorType::Validation,
            qp,
            ctx1("message"@, "Invalid "@ + field@ + ": "@ + reason@),
            seq!["Check your "@ + field@ + " configuration value"@],
        ),
        ConfigError::EnvVarNotFound(var) => {
            let (provider, advice) = env_var_advice(var@);
            diagnosis(
                ErrorType::EmbeddingProvider,
                qp,
                ctx2("provider"@, provider, "message"@, var@),
                seq![advice],
            )
        },
        ConfigError::FileError(m) => diagnosis(
            ErrorType::EmbeddingProvider,
            qp,
            ctx1("error"@, m@),
            seq!["Check your configuration file path and permissions"@],
        ),
    }
}

/// The diagnosis of an embedding error: configuration errors are classified
/// by their kind, every other failure is the provider's.
pub open spec fn embedding_diagnosis(e: EmbeddingError) -> Diagnosis {
    match e {
        EmbeddingError::Config(c) => config_diagnosis(c),
        _ => {
            let (context, suggestions) = embedding_details(e);
            diagnosis(
                ErrorType::EmbeddingProvider,
                PipelineStage::QueryProcessing,
                context,
                suggestions,
            )
        },
    }
}

/// The diagnosis of an API error taken on its own.
pub open spec fn api_diagnosis(e: ApiError) -> Diagnosis {
    let qp = PipelineStage::QueryProcessing;
    let ep = ErrorType::EmbeddingProvider;
    match e {
        ApiError::RateLimit { retry_after_ms } => {
            let (context, suggestions) = rate_limit_details(retry_after_ms);
            diagnosis(ep, qp, context, suggestions)
        },
        ApiError::ServerError { status, message } => diagnosis(
            ep,
            qp,
            ctx2(
                "provider_error"@,
                "Server error ("@ + decimal(status as nat) + ")"@,
                "message"@,
                message@,
            ),
            seq![
                "The embedding provider is experiencing issues, try again later"@,
                "Try FTS mode while debugging: --mode fts"@,
            ],
        ),
        ApiError::Authentication(m) => diagnosis(
            ep,
            qp,
            ctx1("provider_error"@, m@),
            seq![
                "Check your API credentials (OPENAI_API_KEY, GOOGLE_API_KEY, etc.)"@,
                "Verify your API key is valid and has not expired"@,
            ],
        ),
        ApiError::BadRequest(m) => diagnosis(
            ErrorType::Validation,
            qp,
            ctx1("provider_error"@, m@),
            seq!["The query format is invalid for the embedding provider"@, "Try a simpler query"@],
        ),
        ApiError::QuotaExceeded(m) => diagnosis(
            ep,
            qp,
            ctx1("provider_error"@, m@),
            seq![
                "Your API quota has been exceeded"@,
                "Try FTS mode while debugging: --mode fts"@,
            ],
        ),
        ApiError::ModelUnavailable(m) => diagnosis(
            ep,
            qp,
            ctx2("provider_error"@, m@, "provider"@, "unknown"@),
            seq![
                "The requested embedding model is not available"@,
                "Check your MAPROOM_EMBEDDING_MODEL configuration"@,
            ],
        ),
        ApiError::InvalidResponse(m) => diagnosis(
            ep,
            qp,
            ctx1("provider_error"@, m@),
            seq![
                "The embedding provider returned an invalid response"@,
                "Try again or use FTS mode: --mode fts"@,
            ],
        ),
    }
}

/// The diagnosis of a query processing error.
pub open spec fn query_diagnosis(e: QueryProcessorError) -> Diagnosis {
    let qp = PipelineStage::QueryProcessing;
    match e {
        QueryProcessorError::Embedding(x) => embedding_diagnosis(x),
        QueryProcessorError::EmptyQuery => diagnosis(
            ErrorType::Validation,
            qp,
            Seq::empty(),
            seq!["Provide a non-empty search query"@],
        ),
        QueryProcessorError::QueryTooLong(n) => diagnosis(
            ErrorType::Validation,
            qp,
            ctx2("length"@, decimal(n as nat), "max_length"@, "1000"@),
            seq!["Shorten your query to less than 1000 characters"@],
        ),
        QueryProcessorError::NoMeaningfulContent => diagnosis(
            ErrorType::Validation,
            qp,
            Seq::empty(),
            seq!["Provide a query with at least one alphanumeric character"@],
        ),
        QueryProcessorError::Other(m) => diagnosis(
            ErrorType::Unknown,
            qp,
            ctx1("error"@, m@),
            seq!["Please report this error with full details"@],
        ),
    }
}

/// The diagnosis of a search execution failure, by its message.
pub open spec fn execution_diagnosis(msg: Seq<char>) -> Diagnosis {
    let se = PipelineStage::SearchExecution;
    if contains_seq(msg, "timeout"@) || contains_seq(msg, "Timeout"@) {
        diagnosis(
            ErrorType::Timeout,
            se,
            ctx1("message"@, "Search execution timeout"@),
            seq![
                "Try narrowing your search scope with more specific terms"@,
                "Use a simpler query or reduce the result limit"@,
            ],
        )
    } else if contains_seq(msg, "not indexed"@) || contains_seq(msg, "not found"@) || contains_seq(
        msg,
        "No such"@,
    ) {
        diagnosis(
            ErrorType::NotFound,
            se,
            ctx1("error"@, msg),
            seq![
                "Check that the repository is indexed: maproom status"@,
                "Run a scan to index the repository: maproom scan"@,
            ],
        )
    } else {
        diagnosis(
            ErrorType::Database,
            se,
            ctx1("error"@, msg),
            seq![
                "Check database connectivity and permissions"@,
                "Verify repository is indexed: maproom status"@,
            ],
        )
    }
}

/// The diagnosis of a result assembly failure.
pub open spec fn assembly_diagnosis(msg: Seq<char>) -> Diagnosis {
    let ra = PipelineStage::ResultAssembly;
    if contains_seq(msg, "not found"@) || contains_seq(msg, "missing"@) {
        diagnosis(
            ErrorType::NotFound,
            ra,
            ctx1("message"@, msg),
            seq![
                "The search index may be stale or corrupted"@,
                "Try re-scanning the repository: maproom scan"@,
            ],
        )
    } else {
        diagnosis(
            ErrorType::Database,
            ra,
            ctx1("error"@, msg),
            seq!["Check database connectivity"@, "Verify chunk details are available in the database"@],
        )
    }
}

/// The diagnosis of a pipeline error.
pub open spec fn pipeline_diagnosis(e: PipelineError) -> Diagnosis {
    match e {
        PipelineError::QueryProcessing(q) => query_diagnosis(q),
        PipelineError::SearchExecution(x) => execution_diagnosis(executor_error_message(x)),
        PipelineError::Database(m) => {
            let (context, suggestions) = database_details(m@);
            let error_type = if contains_seq(lowercase(m@), "not indexed"@) {
                ErrorType::NotFound
            } else {
                ErrorType::Database
            };
            diagnosis(error_type, PipelineStage::SearchExecution, context, suggestions)
        },
        PipelineError::Assembly(m) => assembly_diagnosis(m@),
    }
}

/// Law: a search-execution failure is classified by its message: one that
/// mentions a timeout ("timeout" or "Timeout") is a Timeout; otherwise one
/// that says "not indexed", "not found" or "No such" is NotFound; any other
/// is a database error. Each is reported at the search-execution stage.
pub proof fn lemma_execution_error_types(msg: Seq<char>)
    ensures
        execution_diagnosis(msg).stage == PipelineStage::SearchExecution,
        contains_seq(msg, "timeout"@) || contains_seq(msg, "Timeout"@) ==> execution_diagnosis(
            msg,
        ).error_type == ErrorType::Timeout,
        !contains_seq(msg, "timeout"@) && !contains_seq(msg, "Timeout"@) && (contains_seq(
            msg,
            "not indexed"@,
        ) || contains_seq(msg, "not found"@) || contains_seq(msg, "No such"@))
            ==> execution_diagnosis(msg).error_type == ErrorType::NotFound,
        !contains_seq(msg, "timeout"@) && !contains_seq(msg, "Timeout"@) && !contains_seq(
            msg,
            "not indexed"@,
        ) && !contains_seq(msg, "not found"@) && !contains_seq(msg, "No such"@)
            ==> execution_diagnosis(msg).error_type == ErrorType::Database,
{
}

/// Law: a result-assembly error whose message mentions "not found" or
/// "missing" is diagnosed as NotFound at the result-assembly stage, with the
/// message kept as context and advice to re-scan a stale index; any other
/// result-assembly error is a database error at that stage.
pub proof fn lemma_assembly_missing_is_not_found(m: String)
    ensures
        contains_seq(m@, "not found"@) || contains_seq(m@, "missing"@) ==> {
            let d = pipeline_diagnosis(PipelineError::Assembly(m));
            &&& d.error_type == ErrorType::NotFound
            &&& d.stage == PipelineStage::ResultAssembly
            &&& d.context == seq![("message"@, m@)]
            &&& d.suggestions == seq![
                "The search index may be stale or corrupted"@,
                "Try re-scanning the repository: maproom scan"@,
            ]
        },
        !contains_seq(m@, "not found"@) && !contains_seq(m@, "missing"@) ==> {
            let d = pipeline_diagnosis(PipelineError::Assembly(m));
            &&& d.error_type == ErrorType::Database
            &&& d.stage == PipelineStage::ResultAssembly
        },
{
}

/// Structured error details with actionable suggestions.
#[derive(Debug, Clone)]
pub struct SearchErrorDetails {
    /// High-level error type category.
    pub error_type: ErrorType,
    /// Pipeline stage where the error occurred.
    pub stage: PipelineStage,
    /// Whitelisted context information extracted from the error.
    pub context: StrMap<String>,
    /// Actionable suggestions for resolving the error.
    pub suggestions: Vec<String>,
}

impl View for SearchErrorDetails {
    type V = Diagnosis;

    open spec fn view(&self) -> Diagnosis {
        diagnosis(
            self.error_type,
            self.stage,
            text_entries(self.context.entries()),
            views(self.suggestions@),
        )
    }
}

/// An empty context.
fn no_context() -> (m: StrMap<String>)
    ensures
        text_entries(m.entries()) == Seq::<(Seq<char>, Seq<char>)>::empty(),
{
    let m = StrMap::new();
    assert(text_entries(m.entries()) =~= Seq::<(Seq<char>, Seq<char>)>::empty());
    m
}

/// Bind a context key.
fn put(m: &mut StrMap<String>, k: &str, v: String)
    ensures
        text_entries(final(m).entries()) == update(text_entries(old(m).entries()), k@, v@),
{
    proof {
        lemma_update_map(m.entries(), k@, v, string_text());
    }
    m.insert(k.to_owned(), v);
}

/// A context with one entry.
fn context1(k: &str, v: String) -> (m: StrMap<String>)
    ensures
        text_entries(m.entries()) == ctx1(k@, v@),
{
    let mut m = no_context();
    put(&mut m, k, v);
    m
}

/// A context with two entries.
fn context2(k1: &str, v1: String, k2: &str, v2: String) -> (m: StrMap<String>)
    ensures
        text_entries(m.entries()) == ctx2(k1@, v1@, k2@, v2@),
{
    let mut m = context1(k1, v1);
    put(&mut m, k2, v2);
    m
}

/// Build details from their parts.
fn details(
    error_type: ErrorType,
    stage: PipelineStage,
    context: StrMap<String>,
    suggestions: Vec<String>,
) -> (d: SearchErrorDetails)
    ensures
        d@ == diagnosis(
            error_type,
            stage,
            text_entries(context.entries()),
            views(suggestions@),
        ),
{
    SearchErrorDetails { error_type, stage, context, suggestions }
}

/// Which provider a lowercased message names.
fn find_provider(low: &str) -> (p: Option<Provider>)
    ensures
        p == provider_in(low@),
{
    if str_contains(low, "openai") {
        Some(Provider::OpenAI)
    } else if str_contains(low, "ollama") {
        Some(Provider::Ollama)
    } else if str_contains(low, "google") {
        Some(Provider::Google)
    } else {
        None
    }
}

/// The suggestions for an embedding failure.
fn suggestions_for(provider: Option<Provider>, low: &str) -> (v: Vec<String>)
    ensures
        views(v@) == embedding_suggestions(provider, low@),
{
    match provider {
        Some(Provider::OpenAI) => if str_contains(low, "timeout") {
            string_list4(
                "Check your network connectivity",
                "Verify OpenAI API status: https://status.openai.com",
                "Try increasing timeout in config",
                "Fallback to FTS mode: --mode fts",
            )
        } else if str_contains(low, "unauthorized") || str_contains(low, "invalid")
            || str_contains(low, "authentication") {
            string_list3(
                "Check OPENAI_API_KEY environment variable",
                "Verify API key is valid and not expired",
                "Check account billing status",
            )
        } else {
            string_list2("Check OpenAI API credentials", "Try FTS mode: --mode fts")
        },
        Some(Provider::Ollama) => if str_contains(low, "connection") || str_contains(
            low,
            "refused",
        ) {
            string_list3(
                "Start Ollama service: ollama serve",
                "Verify Ollama is running: curl http://localhost:11434",
                "Check OLLAMA_HOST environment variable",
            )
        } else if str_contains(low, "model") {
            string_list3(
                "Pull required model: ollama pull mxbai-embed-large",
                "List available models: ollama list",
                "Check model name in config",
            )
        } else {
            string_list2("Check Ollama service status", "Try FTS mode: --mode fts")
        },
        Some(Provider::Google) => string_list3(
            "Check GOOGLE_API_KEY environment variable",
            "Verify Google Cloud credentials",
            "Check API quota limits",
        ),
        None => if str_contains(low, "timeout") {
            string_list3(
                "Check your network connectivity",
                "Verify embedding provider is reachable",
                "Try FTS mode: --mode fts",
            )
        } else if str_contains(low, "unauthorized") || str_contains(low, "authentication")
            || str_contains(low, "credentials") {
            string_list3(
                "Check embedding provider API credentials",
                "Verify API key environment variables are set",
                "Try FTS mode: --mode fts",
            )
        } else {
            string_list2("Check embedding provider configuration", "Try FTS mode: --mode fts")
        },
    }
}

/// Context and suggestions for a rate limit.
fn rate_limit_parts(retry_after_ms: u64) -> (r: (StrMap<String>, Vec<String>))
    ensures
        text_entries(r.0.entries()) == rate_limit_details(retry_after_ms).0,
        views(r.1@) == rate_limit_details(retry_after_ms).1,
{
    let context = context2(
        "provider_error",
        "Rate limit exceeded".to_owned(),
        "timeout_ms",
        u64_to_decimal(retry_after_ms),
    );
    let secs = u64_to_decimal(retry_after_ms / 1000);
    let wait = concat3("Wait ", secs.as_str(), " seconds before retrying");
    let suggestions = string_list2(wait.as_str(), "Try FTS mode while debugging: --mode fts");
    (context, suggestions)
}

impl SearchErrorDetails {
    /// Classify a pipeline error into structured details with suggestions.
    ///
    /// Only whitelisted context keys are produced: `provider_error`,
    /// `provider`, `error`, `message`, `length`, `max_length` and
    /// `timeout_ms`.
    pub fn from_pipeline_error(error: &PipelineError) -> (d: Self)
        ensures
            d@ == pipeline_diagnosis(*error),
            d@.suggestions.len() >= 1,
            context_whitelisted(d@.context),
            d.stage == stage_of(*error),
    {
        proof {
            lemma_diagnosis_sound(*error);
        }
        match error {
            PipelineError::QueryProcessing(query_error) => Self::from_query_processor_error(
                query_error,
            ),
            PipelineError::SearchExecution(executor_error) => {
                let msg = executor_error.message();
                let m = msg.as_str();
                let se = PipelineStage::SearchExecution;
                if str_contains(m, "timeout") || str_contains(m, "Timeout") {
                    details(
                        ErrorType::Timeout,
                        se,
                        context1("message", "Search execution timeout".to_owned()),
                        string_list2(
                            "Try narrowing your search scope with more specific terms",
                            "Use a simpler query or reduce the result limit",
                        ),
                    )
                } else if str_contains(m, "not indexed") || str_contains(m, "not found")
                    || str_contains(m, "No such") {
                    details(
                        ErrorType::NotFound,
                        se,
                        context1("error", m.to_owned()),
                        string_list2(
                            "Check that the repository is indexed: maproom status",
                            "Run a scan to index the repository: maproom scan",
                        ),
                    )
                } else {
                    details(
                        ErrorType::Database,
                        se,
                        context1("error", m.to_owned()),
                        string_list2(
                            "Check database connectivity and permissions",
                            "Verify repository is indexed: maproom status",
                        ),
                    )
                }
            },
            PipelineError::Database(db_error) => {
                let low = str_to_lowercase(db_error.as_str());
                let (context, suggestions) = Self::database_error_details(db_error.as_str());
                let error_type = if str_contains(low.as_str(), "not indexed") {
                    ErrorType::NotFound
                } else {
                    ErrorType::Database
                };
                details(error_type, PipelineStage::SearchExecution, context, suggestions)
            },
            PipelineError::Assembly(assembly_error) => {
                let m = assembly_error.as_str();
                let ra = PipelineStage::ResultAssembly;
                if str_contains(m, "not found") || str_contains(m, "missing") {
                    details(
                        ErrorType::NotFound,
                        ra,
                        context1("message", m.to_owned()),
                        string_list2(
                            "The search index may be stale or corrupted",
                            "Try re-scanning the repository: maproom scan",
                        ),
                    )
                } else {
                    details(
                        ErrorType::Database,
                        ra,
                        context1("error", m.to_owned()),
                        string_list2(
                            "Check database connectivity",
                            "Verify chunk details are available in the database",
                        ),
                    )
                }
            },
        }
    }

    /// Classify a query processing error.
    pub fn from_query_processor_error(error: &QueryProcessorError) -> (d: Self)
        ensures
            d@ == query_diagnosis(*error),
    {
        let qp = PipelineStage::QueryProcessing;
        match error {
            QueryProcessorError::Embedding(embedding_error) => Self::from_embedding_error(
                embedding_error,
            ),
            QueryProcessorError::EmptyQuery => details(
                ErrorType::Validation,
                qp,
                no_context(),
                string_list1("Provide a non-empty search query"),
            ),
            QueryProcessorError::QueryTooLong(length) => details(
                ErrorType::Validation,
                qp,
                context2(
                    "length",
                    u64_to_decimal(*length as u64),
                    "max_length",
                    "1000".to_owned(),
                ),
                string_list1("Shorten your query to less than 1000 characters"),
            ),
            QueryProcessorError::NoMeaningfulContent => details(
                ErrorType::Validation,
                qp,
                no_context(),
                string_list1("Provide a query with at least one alphanumeric character"),
            ),
            QueryProcessorError::Other(msg) => details(
                ErrorType::Unknown,
                qp,
                context1("error", msg.as_str().to_owned()),
                string_list1("Please report this error with full details"),
            ),
        }
    }

    /// Classify an embedding error.
    pub fn from_embedding_error(error: &EmbeddingError) -> (d: Self)
        ensures
            d@ == embedding_diagnosis(*error),
    {
        match error {
            EmbeddingError::Config(config_error) => Self::from_config_error(config_error),
            _ => {
                let (context, suggestions) = Self::embedding_error_details(error);
                details(
                    ErrorType::EmbeddingProvider,
                    PipelineStage::QueryProcessing,
                    context,
                    suggestions,
                )
            },
        }
    }

    /// Classify an API error taken on its own.
    pub fn from_api_error(error: &ApiError) -> (d: Self)
        ensures
            d@ == api_diagnosis(*error),
    {
        let qp = PipelineStage::QueryProcessing;
        let ep = ErrorType::EmbeddingProvider;
        match error {
            ApiError::RateLimit { retry_after_ms } => {
                let (context, suggestions) = rate_limit_parts(*retry_after_ms);
                details(ep, qp, context, suggestions)
            },
            ApiError::ServerError { status, message } => {
                let code = u64_to_decimal(*status as u64);
                details(
                    ep,
                    qp,
                    context2(
                        "provider_error",
                        concat3("Server error (", code.as_str(), ")"),
                        "message",
                        message.as_str().to_owned(),
                    ),
                    string_list2(
                        "The embedding provider is experiencing issues, try again later",
                        "Try FTS mode while debugging: --mode fts",
                    ),
                )
            },
            ApiError::Authentication(m) => details(
                ep,
                qp,
                context1("provider_error", m.as_str().to_owned()),
                string_list2(
                    "Check your API credentials (OPENAI_API_KEY, GOOGLE_API_KEY, etc.)",
                    "Verify your API key is valid and has not expired",
                ),
            ),
            ApiError::BadRequest(m) => details(
                ErrorType::Validation,
                qp,
                context1("provider_error", m.as_str().to_owned()),
                string_list2(
                    "The query format is invalid for the embedding provider",
                    "Try a simpler query",
                ),
            ),
            ApiError::QuotaExceeded(m) => details(
                ep,
                qp,
                context1("provider_error", m.as_str().to_owned()),
                string_list2(
                    "Your API quota has been exceeded",
                    "Try FTS mode while debugging: --mode fts",
                ),
            ),
            ApiError::ModelUnavailable(m) => details(
                ep,
                qp,
                context2("provider_error", m.as_str().to_owned(), "provider", "unknown".to_owned()),
                string_list2(
                    "The requested embedding model is not available",
                    "Check your MAPROOM_EMBEDDING_MODEL configuration",
                ),
            ),
            ApiError::InvalidResponse(m) => details(
                ep,
                qp,
                context1("provider_error", m.as_str().to_owned()),
                string_list2(
                    "The embedding provider returned an invalid response",
                    "Try again or use FTS mode: --mode fts",
                ),
            ),
        }
    }

    /// Classify a configuration error.
    pub fn from_config_error(error: &ConfigError) -> (d: Self)
        ensures
            d@ == config_diagnosis(*error),
    {
        let qp = PipelineStage::QueryProcessing;
        match error {
            ConfigError::MissingConfig(field) => {
                let f = field.as_str();
                let (provider, suggestion) = if str_contains(f, "OPENAI") || str_contains(
                    f,
                    "OpenAI",
                ) || str_contains(f, "openai") {
                    ("openai", "Set OPENAI_API_KEY environment variable".to_owned())
                } else if str_contains(f, "GOOGLE") || str_contains(f, "Google") || str_contains(
                    f,
                    "google",
                ) {
                    (
                        "google",
                        "Set GOOGLE_API_KEY and GOOGLE_PROJECT_ID environment variables".to_owned(),
                    )
                } else if str_contains(f, "OLLAMA") || str_contains(f, "Ollama") || str_contains(
                    f,
                    "ollama",
                ) {
                    ("ollama", "Start Ollama service: ollama serve".to_owned())
                } else {
                    ("unknown", concat3("Set ", f, " environment variable"))
                };
                details(
                    ErrorType::EmbeddingProvider,
                    qp,
                    context2("provider", provider.to_owned(), "message", f.to_owned()),
                    string_list2(suggestion.as_str(), "Check your embedding provider configuration"),
                )
            },
            ConfigError::InvalidValue { field, reason } => {
                let head = concat3("Invalid ", field.as_str(), ": ");
                let msg = concat(head.as_str(), reason.as_str());
                let advice = concat3("Check your ", field.as_str(), " configuration value");
                details(
                    ErrorType::Validation,
                    qp,
                    context1("message", msg),
                    string_list1(advice.as_str()),
                )
            },
            ConfigError::EnvVarNotFound(var_name) => {
                let v = var_name.as_str();
                let (provider, suggestion) = if str_contains(v, "OPENAI") {
                    ("openai", "Set OPENAI_API_KEY environment variable".to_owned())
                } else if str_contains(v, "GOOGLE") {
                    (
                        "google",
                        "Set GOOGLE_API_KEY and GOOGLE_PROJECT_ID environment variables".to_owned(),
                    )
                } else if str_contains(v, "OLLAMA") {
                    ("ollama", "Start Ollama service or check OLLAMA_URL".to_owned())
                } else {
                    ("unknown", concat3("Set ", v, " environment variable"))
                };
                details(
                    ErrorType::EmbeddingProvider,
                    qp,
                    context2("provider", provider.to_owned(), "message", v.to_owned()),
                    string_list1(suggestion.as_str()),
                )
            },
            ConfigError::FileError(m) => details(
                ErrorType::EmbeddingProvider,
                qp,
                context1("error", m.as_str().to_owned()),
                string_list1("Check your configuration file path and permissions"),
            ),
        }
    }

    /// Context and suggestions for an embedding failure.
    pub fn embedding_error_details(error: &EmbeddingError) -> (r: (StrMap<String>, Vec<String>))
        ensures
            text_entries(r.0.entries()) == embedding_details(*error).0,
            views(r.1@) == embedding_details(*error).1,
    {
        if let EmbeddingError::Api(ApiError::RateLimit { retry_after_ms }) = error {
            return rate_limit_parts(*retry_after_ms);
        }
        let msg = error.message();
        let low = str_to_lowercase(msg.as_str());
        let provider = find_provider(low.as_str());
        let mut context = no_context();
        match provider {
            Some(p) => {
                let name = match p {
                    Provider::OpenAI => "OpenAI",
                    Provider::Ollama => "Ollama",
                    Provider::Google => "Google",
                };
                put(&mut context, "provider", name.to_owned());
            },
            None => {},
        }
        put(&mut context, "provider_error", msg);
        let suggestions = suggestions_for(provider, low.as_str());
        (context, suggestions)
    }

    /// Context and suggestions for a database failure.
    pub fn database_error_details(error: &str) -> (r: (StrMap<String>, Vec<String>))
        ensures
            text_entries(r.0.entries()) == database_details(error@).0,
            views(r.1@) == database_details(error@).1,
    {
        let context = context1("message", error.to_owned());
        let lowered = str_to_lowercase(error);
        let low = lowered.as_str();
        let suggestions = if str_contains(low, "not found") || str_contains(low, "does not exist")
            || str_contains(low, "not indexed") {
            string_list3(
                "Check repository name and path",
                "Run 'maproom status' to list indexed repositories",
                "Index repository: 'maproom scan <path>'",
            )
        } else if str_contains(low, "connection") || str_contains(low, "timeout") {
            string_list3(
                "Check database file exists: ~/.maproom/maproom.db",
                "Verify database is not locked by another process",
                "Restart daemon: maproom serve",
            )
        } else if str_contains(low, "corrupt") || str_contains(low, "malformed") {
            string_list3(
                "Backup database: cp ~/.maproom/maproom.db ~/.maproom/maproom.db.backup",
                "Rebuild index: maproom scan --rebuild",
                "Check disk space",
            )
        } else {
            string_list2("Check database connectivity", "Verify repository is indexed")
        };
        (context, suggestions)
    }
}

/// The context keys that may be reported.
pub open spec fn whitelisted_key(k: Seq<char>) -> bool {
    ||| k == "provider_error"@
    ||| k == "provider"@
    ||| k == "error"@
    ||| k == "message"@
    ||| k == "length"@
    ||| k == "max_length"@
    ||| k == "repo_name"@
    ||| k == "worktree_id"@
    ||| k == "timeout_ms"@
}

/// Every key of the context is whitelisted.
pub open spec fn context_whitelisted(ctx: ContextEntries) -> bool {
    forall|i: int| 0 <= i < ctx.len() ==> whitelisted_key(#[trigger] ctx[i].0)
}

/// The keys of a one- or two-entry context.
proof fn lemma_small_context_keys(k1: Seq<char>, v1: Seq<char>, k2: Seq<char>, v2: Seq<char>)
    ensures
        ctx1(k1, v1) == seq![(k1, v1)],
        k1 != k2 ==> ctx2(k1, v1, k2, v2) == seq![(k1, v1), (k2, v2)],
        k1 == k2 ==> ctx2(k1, v1, k2, v2) == seq![(k2, v2)],
{
    assert(update(Seq::<(Seq<char>, Seq<char>)>::empty(), k1, v1) =~= seq![(k1, v1)]);
    let one = seq![(k1, v1)];
    assert(one.drop_first() =~= Seq::<(Seq<char>, Seq<char>)>::empty());
    if k1 != k2 {
        assert(update(one.drop_first(), k2, v2) =~= seq![(k2, v2)]);
        assert(update(one, k2, v2) =~= seq![(k1, v1), (k2, v2)]);
    } else {
        assert(update(one, k2, v2) =~= seq![(k2, v2)]);
    }
}

/// The pipeline stage an error comes from: query processing, search
/// execution (a database failure included) or result assembly.
pub open spec fn stage_of(e: PipelineError) -> PipelineStage {
    match e {
        PipelineError::QueryProcessing(_) => PipelineStage::QueryProcessing,
        PipelineError::SearchExecution(_) => PipelineStage::SearchExecution,
        PipelineError::Database(_) => PipelineStage::SearchExecution,
        PipelineError::Assembly(_) => PipelineStage::ResultAssembly,
    }
}

/// Law: every classified pipeline error comes with at least one suggestion,
/// its context holds whitelisted keys only, so no other information leaks
/// into it, and its stage is the stage the error comes from.
pub proof fn lemma_diagnosis_sound(e: PipelineError)
    ensures
        pipeline_diagnosis(e).suggestions.len() >= 1,
        context_whitelisted(pipeline_diagnosis(e).context),
        pipeline_diagnosis(e).stage == stage_of(e),
{
    reveal_strlit("provider_error");
    reveal_strlit("provider");
    reveal_strlit("timeout_ms");
    reveal_strlit("message");
    reveal_strlit("length");
    reveal_strlit("max_length");
    reveal_strlit("error");
    let pe = "provider_error"@;
    let p = "provider"@;
    let tm = "timeout_ms"@;
    let m = "message"@;
    let len = "length"@;
    let ml = "max_length"@;
    let er = "error"@;
    assert(pe.len() == 14 && tm.len() == 10 && p.len() == 8 && m.len() == 7);
    assert(len.len() == 6 && ml.len() == 10);
    assert(pe != tm);
    assert(p != pe);
    assert(p != m);
    assert(len != ml);
    match e {
        PipelineError::QueryProcessing(q) => {
            match q {
                QueryProcessorError::Embedding(x) => {
                    match x {
                        EmbeddingError::Config(c) => {
                            match c {
                                ConfigError::MissingConfig(f) => {
                                    lemma_small_context_keys(p, missing_config_advice(f@).0, m, f@);
                                },
                                ConfigError::InvalidValue { field, reason } => {
                                    lemma_small_context_keys(
                                        m,
                                        "Invalid "@ + field@ + ": "@ + reason@,
                                        m,
                                        m,
                                    );
                                },
                                ConfigError::EnvVarNotFound(v) => {
                                    lemma_small_context_keys(p, env_var_advice(v@).0, m, v@);
                                },
                                ConfigError::FileError(f) => {
                                    lemma_small_context_keys(er, f@, er, f@);
                                },
                            }
                        },
                        EmbeddingError::Api(ApiError::RateLimit { retry_after_ms }) => {
                            lemma_small_context_keys(
                                pe,
                                "Rate limit exceeded"@,
                                tm,
                                decimal(retry_after_ms as nat),
                            );
                        },
                        _ => {
                            let msg = embedding_error_message(x);
                            let low = lowercase(msg);
                            match provider_in(low) {
                                Some(pr) => {
                                    lemma_small_context_keys(p, provider_name(pr), pe, msg);
                                },
                                None => {
                                    lemma_small_context_keys(pe, msg, pe, msg);
                                },
                            }
                        },
                    }
                },
                QueryProcessorError::QueryTooLong(n) => {
                    lemma_small_context_keys(len, decimal(n as nat), ml, "1000"@);
                },
                QueryProcessorError::Other(msg) => {
                    lemma_small_context_keys(er, msg@, er, msg@);
                },
                _ => {},
            }
        },
        PipelineError::SearchExecution(x) => {
            let msg = executor_error_message(x);
            lemma_small_context_keys(m, "Search execution timeout"@, er, msg);
        },
        PipelineError::Database(msg) => {
            lemma_small_context_keys(m, msg@, m, msg@);
        },
        PipelineError::Assembly(msg) => {
            lemma_small_context_keys(m, msg@, er, msg@);
        },
    }
}

} // verus!
