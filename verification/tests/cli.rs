use maproom::cli::format::{format_agent_error, resolve_preview, sanitize_newlines, OutputFormat};
use maproom::cli::{
    classify_error, format_number, parse_throttle, parse_u64, role_emoji, validate_provider,
    ErrorSource, ThrottleError,
};
use maproom::embedding::error::{ApiError, ConfigError, EmbeddingError};
use maproom::search::pipeline::PipelineError;
use maproom::search::query_processor::QueryProcessorError;

fn message(text: &str) -> ErrorSource {
    ErrorSource::Message(text.to_string())
}

#[test]
fn test_agent_format_implicit_preview_enabled() {
    let (preview_enabled, preview_len) = resolve_preview(OutputFormat::Agent, false, None);
    assert!(preview_enabled, "Agent format must implicitly enable preview");
    assert_eq!(preview_len, 120, "Agent format default preview length must be 120");
}

#[test]
fn test_agent_format_explicit_preview_length_override() {
    let (preview_enabled, preview_len) = resolve_preview(OutputFormat::Agent, false, Some(50));
    assert!(preview_enabled, "Agent format must implicitly enable preview");
    assert_eq!(preview_len, 50, "Explicit preview-length must override agent default");
}

#[test]
fn test_json_format_no_implicit_preview() {
    let (preview_enabled, preview_len) = resolve_preview(OutputFormat::Json, false, None);
    assert!(!preview_enabled, "JSON format must NOT implicitly enable preview");
    assert_eq!(preview_len, 200, "JSON format default preview length must be 200");
}

#[test]
fn test_json_format_with_explicit_preview() {
    let (preview_enabled, preview_len) = resolve_preview(OutputFormat::Json, true, None);
    assert!(preview_enabled, "JSON format with --preview must enable preview");
    assert_eq!(preview_len, 200, "JSON format default preview length must be 200");
}

#[test]
fn test_json_format_explicit_preview_length_override() {
    let (preview_enabled, preview_len) = resolve_preview(OutputFormat::Json, true, Some(300));
    assert!(preview_enabled);
    assert_eq!(preview_len, 300, "Explicit preview-length must override JSON default");
}

#[test]
fn test_exactly_one_error_line() {
    let error_msg = "First line\nSecond line\nThird line";
    let suggestion = "Try this\nor that";

    let structured_output = format_agent_error("database", error_msg, suggestion);

    let line_count = structured_output.lines().count();
    assert_eq!(line_count, 1, "Structured error output must be exactly one line, got {} lines", line_count);

    assert!(!structured_output.contains('\n'), "Structured output should not contain newline characters");
}

#[test]
fn test_error_line_format_validation() {
    let test_cases = vec![
        ("database", "Connection failed", "Check connectivity"),
        ("embedding_provider", "API key missing", "Set OPENAI_API_KEY"),
        ("config_error", "sqlite-vec not found", "Install extension"),
        ("unknown", "Mysterious error", "Report this issue"),
        ("validation", "Invalid input", "Check parameters"),
        ("timeout", "Request timed out", "Retry the operation"),
        ("not_found", "Chunk not found", "Verify chunk ID is indexed"),
    ];

    for (error_type, message, suggestion) in test_cases {
        let structured_output = format_agent_error(error_type, message, suggestion);
        assert_eq!(
            structured_output,
            format!("ERROR | type={} | message={} | suggestion={}", error_type, message, suggestion)
        );
    }
}

#[test]
fn newlines_become_spaces() {
    assert_eq!(sanitize_newlines("a\r\nb\nc"), "a  b c");
    assert_eq!(OutputFormat::default(), OutputFormat::Json);
}

#[test]
fn test_classify_embedding_config_error() {
    let config_error = ConfigError::MissingConfig("OPENAI_API_KEY".to_string());
    let source = ErrorSource::Embedding(EmbeddingError::Config(config_error));

    let (error_type, _suggestion, exit_code) = classify_error(&source);

    assert_eq!(error_type, "embedding_provider");
    assert_eq!(exit_code, 2, "Config errors should exit with code 2");
}

#[test]
fn test_classify_embedding_api_error() {
    let api_error = ApiError::RateLimit { retry_after_ms: 5000 };
    let source = ErrorSource::Embedding(EmbeddingError::Api(api_error));

    let (error_type, _suggestion, exit_code) = classify_error(&source);

    assert_eq!(error_type, "embedding_provider");
    assert_eq!(exit_code, 1, "Runtime API errors should exit with code 1");
}

#[test]
fn test_classify_database_error() {
    let (error_type, suggestion, exit_code) = classify_error(&message("Database connection failed"));

    assert_eq!(error_type, "database");
    assert!(suggestion.contains("database") || suggestion.contains("connectivity"));
    assert_eq!(exit_code, 1);
}

#[test]
fn test_classify_database_file_not_found() {
    let (error_type, suggestion, exit_code) = classify_error(&message(
        "SQLite error: unable to open database file: No such file or directory",
    ));

    assert_eq!(exit_code, 2, "Missing database file is a config error");
    assert_eq!(error_type, "config_error");
    assert!(suggestion.contains("scan"), "Suggestion should mention running scan command");
}

#[test]
fn test_classify_sqlite_vec_error() {
    let (error_type, suggestion, exit_code) = classify_error(&message("sqlite-vec extension not available"));

    assert_eq!(error_type, "config_error");
    assert!(suggestion.contains("configuration"));
    assert_eq!(exit_code, 2, "Missing extension is a config error");
}

#[test]
fn test_classify_unknown_error() {
    let (error_type, suggestion, exit_code) = classify_error(&message("Something unexpected happened"));

    assert_eq!(error_type, "unknown");
    assert!(suggestion.contains("report") || suggestion.contains("details"));
    assert_eq!(exit_code, 1);
}

#[test]
fn test_classify_auth_error_exit_code_2() {
    let auth_error = ApiError::Authentication("Invalid API key".to_string());
    let source = ErrorSource::Embedding(EmbeddingError::Api(auth_error));

    let (error_type, suggestion, exit_code) = classify_error(&source);

    assert_eq!(exit_code, 2);
    assert_eq!(error_type, "config_error");
    assert!(suggestion.contains("API key"));
}

#[test]
fn test_classify_forbidden_api_error_heuristic() {
    let forbidden_error = ApiError::ServerError {
        status: 403,
        message: "Forbidden: insufficient permissions".to_string(),
    };
    let source = ErrorSource::Embedding(EmbeddingError::Api(forbidden_error));

    let (error_type, _suggestion, exit_code) = classify_error(&source);

    assert_eq!(exit_code, 2, "403 Forbidden errors should be config errors (exit code 2)");
    assert_eq!(error_type, "config_error");
}

#[test]
fn test_vector_search_config_error_classification() {
    let (error_type, suggestion, exit_code) =
        classify_error(&message("OPENAI_API_KEY environment variable not set"));

    assert_eq!(error_type, "config_error");
    assert!(suggestion.contains("configuration") || suggestion.contains("environment"));
    assert_eq!(exit_code, 2);
}

#[test]
fn classify_pipeline_errors() {
    let source = ErrorSource::Pipeline(PipelineError::Database("Repository not indexed".to_string()));
    let (error_type, suggestion, exit_code) = classify_error(&source);
    assert_eq!(error_type, "not_found");
    assert_eq!(exit_code, 1);
    assert_eq!(
        suggestion,
        "Check repository name and path; Run 'maproom status' to list indexed repositories; Index repository: 'maproom scan <path>'"
    );

    let missing_key = ErrorSource::Pipeline(PipelineError::QueryProcessing(
        QueryProcessorError::Embedding(EmbeddingError::Config(ConfigError::MissingConfig(
            "OPENAI_API_KEY".to_string(),
        ))),
    ));
    let (error_type, _suggestion, exit_code) = classify_error(&missing_key);
    assert_eq!(error_type, "embedding_provider");
    assert_eq!(exit_code, 2);
}

#[test]
fn validating_providers() {
    assert_eq!(validate_provider("OpenAI"), Ok("openai".to_string()));
    assert_eq!(validate_provider("ollama"), Ok("ollama".to_string()));
    assert_eq!(
        validate_provider("azure"),
        Err("Invalid provider: 'azure'. Supported providers: ollama, openai, google".to_string())
    );
}

#[test]
fn formatting_numbers() {
    assert_eq!(format_number(487329), "487,329");
    assert_eq!(format_number(0), "0");
    assert_eq!(format_number(999), "999");
    assert_eq!(format_number(1000), "1,000");
    assert_eq!(format_number(1234567890), "1,234,567,890");
    assert_eq!(format_number(-1234), "-1,234");
    assert_eq!(format_number(-123), "-,123");
    assert_eq!(format_number(-123456), "-,123,456");
    assert_eq!(format_number(-12345), "-12,345");
}

#[test]
fn parsing_throttle_settings() {
    assert_eq!(parse_throttle("500ms"), Ok(500));
    assert_eq!(parse_throttle("2s"), Ok(2000));
    assert_eq!(parse_throttle(" 3 "), Ok(3000));
    assert_eq!(parse_throttle("+7s"), Ok(7000));
    assert_eq!(parse_throttle("xs"), Err(ThrottleError::InvalidValue("xs".to_string())));
    assert_eq!(parse_throttle(" fast "), Err(ThrottleError::InvalidUnitless("fast".to_string())));
    assert_eq!(
        parse_throttle("fast").unwrap_err().message(),
        "Invalid throttle value: fast. Use format like '2s' or '500ms'"
    );
}

#[test]
fn parsing_u64_like_std() {
    for s in ["0", "42", "+42", "18446744073709551615", "18446744073709551616", "", "+", "-1", "1a"] {
        assert_eq!(parse_u64(s), s.parse::<u64>().ok(), "input {:?}", s);
    }
}

#[test]
fn role_emojis() {
    assert_eq!(role_emoji("Primary"), "\u{1f4c4}");
    assert_eq!(role_emoji("CONFIG"), "\u{2699}\u{fe0f}");
    assert_eq!(role_emoji("something"), "\u{1f4ce}");
}

#[test]
fn test_role_emoji_known_roles() {
    assert_eq!(role_emoji("primary"), "📄");
    assert_eq!(role_emoji("caller"), "🔗");
    assert_eq!(role_emoji("callee"), "📤");
    assert_eq!(role_emoji("test"), "🧪");
    assert_eq!(role_emoji("doc"), "📚");
    assert_eq!(role_emoji("config"), "⚙️");
    assert_eq!(role_emoji("hook"), "🪝");
    assert_eq!(role_emoji("jsx_parent"), "⬆️");
    assert_eq!(role_emoji("jsx_child"), "⬇️");
}

#[test]
fn test_role_emoji_unknown_role() {
    assert_eq!(role_emoji("unknown"), "📎");
    assert_eq!(role_emoji("foobar"), "📎");
}

#[test]
fn test_role_emoji_case_insensitive() {
    assert_eq!(role_emoji("PRIMARY"), "📄");
    assert_eq!(role_emoji("Caller"), "🔗");
    assert_eq!(role_emoji("TEST"), "🧪");
}

#[test]
fn test_classify_database_runtime_error_unchanged() {
    let (error_type, suggestion, exit_code) =
        classify_error(&message("Database query failed: syntax error"));
    assert_eq!(exit_code, 1, "Database runtime errors should remain exit code 1");
    assert_eq!(error_type, "database");
    assert!(suggestion.contains("database") || suggestion.contains("connectivity"));
}

#[test]
fn test_classify_error_with_anyhow_context() {
    let config_error = ConfigError::EnvVarNotFound("GOOGLE_API_KEY".to_string());
    let source = ErrorSource::Embedding(EmbeddingError::Config(config_error));
    let (error_type, _suggestion, exit_code) = classify_error(&source);
    assert_eq!(error_type, "embedding_provider");
    assert_eq!(exit_code, 2, "Config errors should exit with code 2");
}

#[test]
fn test_classify_heuristic_fallback() {
    let (error_type, _suggestion, exit_code) =
        classify_error(&message("Mysterious error from unknown source"));
    assert_eq!(error_type, "unknown", "Unrecognized errors should fall back to unknown type");
    assert_eq!(exit_code, 1);
}

#[test]
fn test_classify_quota_exceeded_exit_code_2() {
    let quota_error = ApiError::QuotaExceeded("Rate limit exceeded for account".to_string());
    let source = ErrorSource::Embedding(EmbeddingError::Api(quota_error));
    let (error_type, suggestion, exit_code) = classify_error(&source);
    assert_eq!(exit_code, 2, "Quota exceeded errors should be config errors (exit code 2)");
    assert_eq!(error_type, "config_error");
    assert!(suggestion.contains("API key"), "Suggestion should mention API key, got: {}", suggestion);
}

#[test]
fn test_classify_non_auth_api_error_exit_code_1() {
    let rate_limit_error = ApiError::RateLimit { retry_after_ms: 5000 };
    let source = ErrorSource::Embedding(EmbeddingError::Api(rate_limit_error));
    let (error_type, _suggestion, exit_code) = classify_error(&source);
    assert_eq!(exit_code, 1, "Rate limit errors should be runtime errors (exit code 1)");
    assert_eq!(error_type, "embedding_provider");
}

#[test]
fn test_classify_auth_error_with_context() {
    let auth_error = ApiError::Authentication("Invalid key provided".to_string());
    let source = ErrorSource::Embedding(EmbeddingError::Api(auth_error));
    let (error_type, suggestion, exit_code) = classify_error(&source);
    assert_eq!(exit_code, 2, "Auth errors wrapped in context should still be config errors (exit code 2)");
    assert_eq!(error_type, "config_error");
    assert!(suggestion.contains("API key"));
}

#[test]
fn test_search_agent_database_error_classification() {
    let (error_type, suggestion, exit_code) = classify_error(&message("Database connection failed"));
    assert_eq!(error_type, "database");
    assert!(
        suggestion.contains("database") || suggestion.contains("connectivity"),
        "Database error should mention database or connectivity"
    );
    assert_eq!(exit_code, 1, "Database errors should exit with code 1");
}

#[test]
fn test_vector_search_sqlite_vec_classification() {
    let (error_type, suggestion, exit_code) = classify_error(&message("sqlite-vec extension not available"));
    assert_eq!(error_type, "config_error", "Missing sqlite-vec should be classified as config_error");
    assert!(suggestion.contains("configuration"), "Config error should mention configuration");
    assert_eq!(exit_code, 2, "Missing extension is a config error, not runtime error");
}

#[test]
fn test_dual_output_format() {
    let text = "Database connection timeout";
    let (error_type, suggestion, exit_code) = classify_error(&message(text));
    let structured_output = format_agent_error(&error_type, text, &suggestion);
    assert_eq!(exit_code, 1, "Database errors should exit with code 1");
    assert!(structured_output.starts_with("ERROR | "));
    assert!(structured_output.contains(&format!("type={}", error_type)));
    assert!(structured_output.contains("message="));
    assert!(structured_output.contains("suggestion="));
}

#[test]
fn test_default_format_no_structured_output() {
    let (error_type, suggestion, exit_code) = classify_error(&message("Some random error"));
    assert!(!error_type.is_empty(), "Error type should not be empty");
    assert!(!suggestion.is_empty(), "Suggestion should not be empty");
    assert!(exit_code == 1 || exit_code == 2, "Exit code should be 1 or 2");
}
