use maproom::embedding::error::{ApiError, EmbeddingError};
use maproom::search::expander::QueryExpander;
use maproom::search::query_processor::{QueryProcessor, QueryProcessorError};
use maproom::search::tokenizer::Tokenizer;
use maproom::search::types::SearchMode;

#[test]
fn test_mode_detection_code() {
    let processor = QueryProcessor::new();

    assert_eq!(processor.detect_mode("User::authenticate"), SearchMode::Code);
    assert_eq!(processor.detect_mode("array->length"), SearchMode::Code);
    assert_eq!(processor.detect_mode("a => b"), SearchMode::Code);
    assert_eq!(processor.detect_mode("x != y"), SearchMode::Code);

    assert_eq!(processor.detect_mode("console.log()"), SearchMode::Code);

    assert_eq!(processor.detect_mode("authenticate"), SearchMode::Code);
    assert_eq!(processor.detect_mode("user_name"), SearchMode::Code);
    assert_eq!(processor.detect_mode("UserAuth"), SearchMode::Code);
}

#[test]
fn test_mode_detection_text() {
    let processor = QueryProcessor::new();

    assert_eq!(processor.detect_mode("how to authenticate a user"), SearchMode::Text);
    assert_eq!(processor.detect_mode("find all authentication functions"), SearchMode::Text);
    assert_eq!(processor.detect_mode("what is the login process"), SearchMode::Text);
}

#[test]
fn test_mode_detection_auto() {
    let processor = QueryProcessor::new();

    assert_eq!(processor.detect_mode("user authentication"), SearchMode::Auto);
    assert_eq!(processor.detect_mode("login error handler"), SearchMode::Auto);
}

#[test]
fn test_query_validation() {
    let processor = QueryProcessor::new();

    assert!(processor.validate_query("hello world").is_ok());
    assert!(processor.validate_query("User::authenticate").is_ok());

    assert!(matches!(processor.validate_query(""), Err(QueryProcessorError::EmptyQuery)));
    assert!(matches!(processor.validate_query("   "), Err(QueryProcessorError::EmptyQuery)));

    let long_query = "a".repeat(1001);
    assert!(matches!(
        processor.validate_query(&long_query),
        Err(QueryProcessorError::QueryTooLong(_))
    ));

    assert!(matches!(
        processor.validate_query("!!!???"),
        Err(QueryProcessorError::NoMeaningfulContent)
    ));
}

#[test]
fn test_processor_creation() {
    let processor = QueryProcessor::new();

    let (tokenizer, expander) = processor.components();
    assert!(tokenizer.tokenize("test").len() > 0);
    assert!(expander.get_synonyms("auth").is_some());
}

#[test]
fn test_custom_components() {
    let tokenizer = Tokenizer::new();
    let expander = QueryExpander::new();

    let processor = QueryProcessor::with_components(tokenizer, expander);

    let mode = processor.detect_mode("test query");
    assert!(matches!(mode, SearchMode::Auto | SearchMode::Text));
}

#[test]
fn query_length_limit_counts_characters() {
    let processor = QueryProcessor::new();
    assert!(processor.validate_query(&"a".repeat(1000)).is_ok());
    assert_eq!(
        processor.validate_query(&"a".repeat(1001)),
        Err(QueryProcessorError::QueryTooLong(1001))
    );
    // Three-byte characters count once each.
    assert!(processor.validate_query(&"\u{4e16}".repeat(1000)).is_ok());
    assert_eq!(
        processor.validate_query(&"\u{e9}".repeat(1001)),
        Err(QueryProcessorError::QueryTooLong(1001))
    );
}

#[test]
fn mode_of_two_words_depends_on_naming() {
    let processor = QueryProcessor::new();
    assert_eq!(processor.detect_mode("getUser byId"), SearchMode::Code);
    assert_eq!(processor.detect_mode("get user"), SearchMode::Auto);
    assert_eq!(processor.detect_mode(""), SearchMode::Auto);
    assert_eq!(processor.detect_mode("a b c d"), SearchMode::Text);
}

#[test]
fn processing_with_embedding() {
    let processor = QueryProcessor::new();
    let processed = processor.process_with_embedding("auth error", Ok(vec![1, 2, 3])).unwrap();
    assert_eq!(processed.original, "auth error");
    assert_eq!(processed.tokens, vec!["auth", "error"]);
    assert_eq!(processed.embedding, vec![1, 2, 3]);
    assert_eq!(processed.mode, SearchMode::Auto);
    assert!(processed.expanded_terms.contains(&"exception".to_string()));

    let failure = EmbeddingError::Api(ApiError::BadRequest("nope".to_string()));
    match processor.process_with_embedding("auth", Err(failure.clone())) {
        Err(QueryProcessorError::Embedding(e)) => assert_eq!(e, failure),
        _ => panic!("expected an embedding error"),
    }
    assert!(matches!(
        processor.process_with_embedding("", Ok(vec![])),
        Err(QueryProcessorError::EmptyQuery)
    ));
}

#[test]
fn query_error_messages() {
    assert_eq!(
        QueryProcessorError::QueryTooLong(1500).message(),
        "Query is too long: 1500 characters (max 1000)"
    );
    assert_eq!(
        QueryProcessorError::EmptyQuery.message(),
        "Query is empty or contains only whitespace"
    );
}
