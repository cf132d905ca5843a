use maproom::embedding::error::{ApiError, CacheError, ConfigError, EmbeddingError};
use maproom::search::errors::{ErrorType, PipelineStage, SearchErrorDetails};
use maproom::search::executors::ExecutorError;
use maproom::search::fts::FTSError;
use maproom::search::pipeline::PipelineError;
use maproom::search::query_processor::QueryProcessorError;

fn embedding(e: EmbeddingError) -> PipelineError {
    PipelineError::QueryProcessing(QueryProcessorError::Embedding(e))
}

#[test]
fn test_empty_query_error_conversion() {
    let error = PipelineError::QueryProcessing(QueryProcessorError::EmptyQuery);
    let details = SearchErrorDetails::from_pipeline_error(&error);

    assert_eq!(details.error_type, ErrorType::Validation);
    assert_eq!(details.stage, PipelineStage::QueryProcessing);
    assert!(!details.suggestions.is_empty());
    assert!(details.suggestions.iter().any(|s| s.contains("non-empty")));
}

#[test]
fn test_query_too_long_error_conversion() {
    let error = PipelineError::QueryProcessing(QueryProcessorError::QueryTooLong(1500));
    let details = SearchErrorDetails::from_pipeline_error(&error);

    assert_eq!(details.error_type, ErrorType::Validation);
    assert_eq!(details.stage, PipelineStage::QueryProcessing);
    assert_eq!(details.context.get("length"), Some(&"1500".to_string()));
    assert_eq!(details.context.get("max_length"), Some(&"1000".to_string()));
    assert!(details.suggestions.iter().any(|s| s.contains("1000")));
}

#[test]
fn test_no_meaningful_content_error_conversion() {
    let error = PipelineError::QueryProcessing(QueryProcessorError::NoMeaningfulContent);
    let details = SearchErrorDetails::from_pipeline_error(&error);

    assert_eq!(details.error_type, ErrorType::Validation);
    assert_eq!(details.stage, PipelineStage::QueryProcessing);
    assert!(details.suggestions.iter().any(|s| s.contains("alphanumeric")));
}

#[test]
fn test_embedding_provider_authentication_error() {
    let api_error = ApiError::Authentication("Invalid API key".to_string());
    let error = embedding(EmbeddingError::Api(api_error));
    let details = SearchErrorDetails::from_pipeline_error(&error);

    assert_eq!(details.error_type, ErrorType::EmbeddingProvider);
    assert_eq!(details.stage, PipelineStage::QueryProcessing);
    assert!(details.suggestions.len() >= 1);
    assert!(details.suggestions.iter().any(|s| s.contains("API")));
}

#[test]
fn test_embedding_provider_rate_limit_error() {
    let api_error = ApiError::RateLimit { retry_after_ms: 5000 };
    let error = embedding(EmbeddingError::Api(api_error));
    let details = SearchErrorDetails::from_pipeline_error(&error);

    assert_eq!(details.error_type, ErrorType::EmbeddingProvider);
    assert_eq!(details.stage, PipelineStage::QueryProcessing);
    assert_eq!(details.context.get("timeout_ms"), Some(&"5000".to_string()));
    assert!(details.suggestions.iter().any(|s| s.contains("FTS mode")));
}

#[test]
fn test_embedding_provider_server_error() {
    let api_error = ApiError::ServerError { status: 503, message: "Service unavailable".to_string() };
    let error = embedding(EmbeddingError::Api(api_error));
    let details = SearchErrorDetails::from_pipeline_error(&error);

    assert_eq!(details.error_type, ErrorType::EmbeddingProvider);
    assert_eq!(details.stage, PipelineStage::QueryProcessing);
    assert!(details.suggestions.len() >= 2);
    assert!(details.suggestions.iter().any(|s| s.contains("FTS mode")));
}

#[test]
fn test_embedding_provider_config_error_openai() {
    let config_error = ConfigError::MissingConfig("OPENAI_API_KEY".to_string());
    let error = embedding(EmbeddingError::Config(config_error));
    let details = SearchErrorDetails::from_pipeline_error(&error);

    assert_eq!(details.error_type, ErrorType::EmbeddingProvider);
    assert_eq!(details.stage, PipelineStage::QueryProcessing);
    assert_eq!(details.context.get("provider"), Some(&"openai".to_string()));
    assert!(details.suggestions.iter().any(|s| s.contains("OPENAI_API_KEY")));
}

#[test]
fn test_embedding_provider_config_error_google() {
    let config_error = ConfigError::MissingConfig("GOOGLE_API_KEY".to_string());
    let error = embedding(EmbeddingError::Config(config_error));
    let details = SearchErrorDetails::from_pipeline_error(&error);

    assert_eq!(details.error_type, ErrorType::EmbeddingProvider);
    assert_eq!(details.stage, PipelineStage::QueryProcessing);
    assert_eq!(details.context.get("provider"), Some(&"google".to_string()));
    assert!(details.suggestions.iter().any(|s| s.contains("GOOGLE_API_KEY")));
}

#[test]
fn test_embedding_provider_config_error_ollama() {
    let config_error = ConfigError::MissingConfig("OLLAMA service".to_string());
    let error = embedding(EmbeddingError::Config(config_error));
    let details = SearchErrorDetails::from_pipeline_error(&error);

    assert_eq!(details.error_type, ErrorType::EmbeddingProvider);
    assert_eq!(details.stage, PipelineStage::QueryProcessing);
    assert_eq!(details.context.get("provider"), Some(&"ollama".to_string()));
    assert!(details.suggestions.iter().any(|s| s.contains("Ollama") || s.contains("ollama")));
}

#[test]
fn test_embedding_provider_network_error() {
    let cache_error = CacheError::WriteFailed("network timeout".to_string());
    let error = embedding(EmbeddingError::Cache(cache_error));
    let details = SearchErrorDetails::from_pipeline_error(&error);

    assert_eq!(details.error_type, ErrorType::EmbeddingProvider);
    assert_eq!(details.stage, PipelineStage::QueryProcessing);
    assert!(!details.suggestions.is_empty());
}

#[test]
fn test_database_error_not_indexed() {
    let error = PipelineError::Database("Repository not indexed".to_string());
    let details = SearchErrorDetails::from_pipeline_error(&error);

    assert_eq!(details.error_type, ErrorType::NotFound);
    assert_eq!(details.stage, PipelineStage::SearchExecution);
    assert!(details.suggestions.iter().any(|s| s.contains("status")));
}

#[test]
fn test_database_error_timeout() {
    let error = PipelineError::Database("Database connection timeout".to_string());
    let details = SearchErrorDetails::from_pipeline_error(&error);

    assert_eq!(details.error_type, ErrorType::Database);
    assert_eq!(details.stage, PipelineStage::SearchExecution);
    assert!(details.suggestions.iter().any(|s| s.contains("daemon")));
}

#[test]
fn test_database_error_corrupted() {
    let error = PipelineError::Database("Database file is corrupted".to_string());
    let details = SearchErrorDetails::from_pipeline_error(&error);

    assert_eq!(details.error_type, ErrorType::Database);
    assert_eq!(details.stage, PipelineStage::SearchExecution);
    assert!(details.suggestions.iter().any(|s| s.contains("rebuild")));
    assert!(details.suggestions.iter().any(|s| s.contains("disk space")));
}

#[test]
fn test_search_execution_timeout() {
    let fts_error = FTSError::Database("Search timeout exceeded".to_string());
    let error = PipelineError::SearchExecution(ExecutorError::FTS(fts_error));
    let details = SearchErrorDetails::from_pipeline_error(&error);

    assert_eq!(details.error_type, ErrorType::Timeout);
    assert_eq!(details.stage, PipelineStage::SearchExecution);
    assert!(details.suggestions.iter().any(|s| s.contains("narrow")));
}

#[test]
fn test_result_assembly_not_found() {
    let error = PipelineError::Assembly("Chunk 12345 not found in database".to_string());
    let details = SearchErrorDetails::from_pipeline_error(&error);

    assert_eq!(details.error_type, ErrorType::NotFound);
    assert_eq!(details.stage, PipelineStage::ResultAssembly);
    assert!(details.suggestions.iter().any(|s| s.contains("scan")));
}

#[test]
fn test_unknown_error_fallback() {
    let error = PipelineError::QueryProcessing(QueryProcessorError::Other("Unexpected error".to_string()));
    let details = SearchErrorDetails::from_pipeline_error(&error);

    assert_eq!(details.error_type, ErrorType::Unknown);
    assert_eq!(details.stage, PipelineStage::QueryProcessing);
    assert!(details.suggestions.iter().any(|s| s.contains("report")));
}

#[test]
fn test_all_error_types_have_suggestions() {
    let test_cases = vec![
        PipelineError::QueryProcessing(QueryProcessorError::EmptyQuery),
        PipelineError::QueryProcessing(QueryProcessorError::QueryTooLong(1500)),
        embedding(EmbeddingError::Api(ApiError::Authentication("test".to_string()))),
        PipelineError::Database("test error".to_string()),
        PipelineError::SearchExecution(ExecutorError::FTS(FTSError::Database("timeout".to_string()))),
        PipelineError::Assembly("not found".to_string()),
    ];

    for error in test_cases {
        let details = SearchErrorDetails::from_pipeline_error(&error);
        assert!(!details.suggestions.is_empty(), "Error {:?} has no suggestions", error);
        assert!(details.suggestions.len() >= 1, "Error {:?} has fewer than 1 suggestion", error);
    }
}

#[test]
fn test_context_whitelist_enforced() {
    let whitelisted_keys = vec![
        "provider_error",
        "provider",
        "error",
        "message",
        "length",
        "max_length",
        "repo_name",
        "worktree_id",
        "timeout_ms",
    ];

    let error = PipelineError::QueryProcessing(QueryProcessorError::QueryTooLong(1500));
    let details = SearchErrorDetails::from_pipeline_error(&error);

    for key in details.context.keys() {
        assert!(whitelisted_keys.contains(&key.as_str()), "Context key '{}' is not whitelisted", key);
    }
}

#[test]
fn test_openai_timeout_suggestions() {
    let error = embedding(EmbeddingError::Other("OpenAI request timeout".to_string()));
    let details = SearchErrorDetails::from_pipeline_error(&error);

    assert_eq!(details.error_type, ErrorType::EmbeddingProvider);
    assert_eq!(details.context.get("provider").unwrap(), "OpenAI");
    assert!(details.suggestions.len() >= 3);
    assert!(details.suggestions.iter().any(|s| s.contains("status.openai.com")));
    assert!(details.suggestions.iter().any(|s| s.contains("FTS mode")));
}

#[test]
fn test_ollama_connection_suggestions() {
    let error = embedding(EmbeddingError::Other("Ollama connection refused".to_string()));
    let details = SearchErrorDetails::from_pipeline_error(&error);

    assert_eq!(details.error_type, ErrorType::EmbeddingProvider);
    assert_eq!(details.context.get("provider").unwrap(), "Ollama");
    assert!(details.suggestions.iter().any(|s| s.contains("ollama serve")));
    assert!(details.suggestions.iter().any(|s| s.contains("localhost:11434")));
}

#[test]
fn test_database_not_found_suggestions() {
    let error = PipelineError::Database("repository not found".to_string());
    let details = SearchErrorDetails::from_pipeline_error(&error);

    assert_eq!(details.error_type, ErrorType::Database);
    assert!(details.suggestions.iter().any(|s| s.contains("maproom status")));
    assert!(details.suggestions.iter().any(|s| s.contains("scan")));
}

#[test]
fn test_openai_unauthorized_suggestions() {
    let error = embedding(EmbeddingError::Other("Invalid OpenAI API key".to_string()));
    let details = SearchErrorDetails::from_pipeline_error(&error);

    assert_eq!(details.error_type, ErrorType::EmbeddingProvider);
    assert_eq!(details.context.get("provider").unwrap(), "OpenAI");
    assert!(details.suggestions.iter().any(|s| s.contains("OPENAI_API_KEY")));
    assert!(details.suggestions.iter().any(|s| s.contains("billing") || s.contains("expired")));
}

#[test]
fn test_ollama_model_suggestions() {
    let error = embedding(EmbeddingError::Other("Ollama model not found".to_string()));
    let details = SearchErrorDetails::from_pipeline_error(&error);

    assert_eq!(details.error_type, ErrorType::EmbeddingProvider);
    assert_eq!(details.context.get("provider").unwrap(), "Ollama");
    assert!(details.suggestions.iter().any(|s| s.contains("ollama pull")));
    assert!(details.suggestions.iter().any(|s| s.contains("ollama list")));
}

#[test]
fn test_database_connection_timeout_suggestions() {
    let error = PipelineError::Database("Database connection timeout".to_string());
    let details = SearchErrorDetails::from_pipeline_error(&error);

    assert_eq!(details.error_type, ErrorType::Database);
    assert!(details.suggestions.iter().any(|s| s.contains("maproom.db")));
    assert!(details.suggestions.iter().any(|s| s.contains("locked")));
    assert!(details.suggestions.iter().any(|s| s.contains("serve")));
}

#[test]
fn test_database_corrupt_suggestions() {
    let error = PipelineError::Database("Database file is corrupted".to_string());
    let details = SearchErrorDetails::from_pipeline_error(&error);

    assert_eq!(details.error_type, ErrorType::Database);
    assert!(details.suggestions.iter().any(|s| s.contains("Backup")));
    assert!(details.suggestions.iter().any(|s| s.contains("rebuild") || s.contains("Rebuild")));
    assert!(details.suggestions.iter().any(|s| s.contains("disk space")));
}

#[test]
fn test_google_provider_suggestions() {
    let error = embedding(EmbeddingError::Other("Google API error: quota exceeded".to_string()));
    let details = SearchErrorDetails::from_pipeline_error(&error);

    assert_eq!(details.error_type, ErrorType::EmbeddingProvider);
    assert_eq!(details.context.get("provider").unwrap(), "Google");
    assert!(details.suggestions.iter().any(|s| s.contains("GOOGLE_API_KEY")));
    assert!(details.suggestions.iter().any(|s| s.contains("quota")));
}

#[test]
fn test_generic_timeout_without_provider() {
    let error = embedding(EmbeddingError::Other("request timeout".to_string()));
    let details = SearchErrorDetails::from_pipeline_error(&error);

    assert_eq!(details.error_type, ErrorType::EmbeddingProvider);
    assert!(details.suggestions.iter().any(|s| s.contains("network")));
    assert!(details.suggestions.iter().any(|s| s.contains("FTS mode")));
}

#[test]
fn api_error_details_by_kind() {
    let d = SearchErrorDetails::from_api_error(&ApiError::ServerError {
        status: 503,
        message: "down".to_string(),
    });
    assert_eq!(d.error_type, ErrorType::EmbeddingProvider);
    assert_eq!(d.context.get("provider_error"), Some(&"Server error (503)".to_string()));
    assert_eq!(d.context.get("message"), Some(&"down".to_string()));

    let d = SearchErrorDetails::from_api_error(&ApiError::BadRequest("bad".to_string()));
    assert_eq!(d.error_type, ErrorType::Validation);

    let d = SearchErrorDetails::from_api_error(&ApiError::RateLimit { retry_after_ms: 12_345 });
    assert_eq!(d.suggestions[0], "Wait 12 seconds before retrying");
}

#[test]
fn config_error_details() {
    let d = SearchErrorDetails::from_config_error(&ConfigError::InvalidValue {
        field: "timeout".to_string(),
        reason: "negative".to_string(),
    });
    assert_eq!(d.error_type, ErrorType::Validation);
    assert_eq!(d.context.get("message"), Some(&"Invalid timeout: negative".to_string()));
    assert_eq!(d.suggestions, vec!["Check your timeout configuration value"]);

    let d = SearchErrorDetails::from_config_error(&ConfigError::EnvVarNotFound("FOO".to_string()));
    assert_eq!(d.context.get("provider"), Some(&"unknown".to_string()));
    assert_eq!(d.suggestions, vec!["Set FOO environment variable"]);
}

#[test]
fn execution_errors_by_message() {
    let not_found = PipelineError::SearchExecution(ExecutorError::Connection("No such table".to_string()));
    let d = SearchErrorDetails::from_pipeline_error(&not_found);
    assert_eq!(d.error_type, ErrorType::NotFound);
    assert_eq!(
        d.context.get("error"),
        Some(&"Database connection error: No such table".to_string())
    );

    let other = PipelineError::SearchExecution(ExecutorError::AllFailed);
    let d = SearchErrorDetails::from_pipeline_error(&other);
    assert_eq!(d.error_type, ErrorType::Database);

    let assembly = PipelineError::Assembly("broken row".to_string());
    let d = SearchErrorDetails::from_pipeline_error(&assembly);
    assert_eq!(d.error_type, ErrorType::Database);
    assert_eq!(d.stage, PipelineStage::ResultAssembly);
}
