use maproom::search::types::{ProcessedQuery, SearchMode};

fn embedding() -> Vec<u32> {
    vec![0.1f32.to_bits(); 1536]
}

#[test]
fn test_search_mode_defaults() {
    assert_eq!(SearchMode::default(), SearchMode::Auto);
}

#[test]
fn test_search_mode_predicates() {
    assert!(SearchMode::Code.prefers_code());
    assert!(!SearchMode::Code.prefers_text());
    assert!(!SearchMode::Code.is_auto());

    assert!(SearchMode::Text.prefers_text());
    assert!(!SearchMode::Text.prefers_code());
    assert!(!SearchMode::Text.is_auto());

    assert!(SearchMode::Auto.is_auto());
    assert!(!SearchMode::Auto.prefers_code());
    assert!(!SearchMode::Auto.prefers_text());
}

#[test]
fn test_processed_query_all_terms() {
    let query = ProcessedQuery::new(
        "test query".to_string(),
        vec!["test".to_string(), "query".to_string()],
        embedding(),
        vec!["test".to_string(), "search".to_string()],
        SearchMode::Text,
    );

    let all_terms = query.all_terms();
    assert_eq!(all_terms.len(), 3);
    assert!(all_terms.contains(&"test".to_string()));
    assert!(all_terms.contains(&"query".to_string()));
    assert!(all_terms.contains(&"search".to_string()));
}

#[test]
fn test_fts_query_string() {
    let query = ProcessedQuery::new(
        "auth login".to_string(),
        vec!["auth".to_string(), "login".to_string()],
        embedding(),
        vec![],
        SearchMode::Code,
    );

    assert_eq!(query.fts_query_string(), "auth & login");
}

#[test]
fn test_fts_query_string_escaping() {
    let query = ProcessedQuery::new(
        "test & query | not".to_string(),
        vec!["test".to_string(), "&".to_string(), "query".to_string()],
        embedding(),
        vec![],
        SearchMode::Text,
    );

    let fts = query.fts_query_string();
    assert!(!fts.contains('&') || fts.contains(" & "));
    assert!(!fts.contains('|'));
}

#[test]
fn test_expanded_fts_query_string() {
    let query = ProcessedQuery::new(
        "auth".to_string(),
        vec!["auth".to_string()],
        embedding(),
        vec!["authentication".to_string(), "authorize".to_string()],
        SearchMode::Code,
    );

    let expanded = query.expanded_fts_query_string();
    assert!(expanded.contains("auth"));
    assert!(expanded.contains("authentication"));
    assert!(expanded.contains("|"));
}

#[test]
fn types_test_empty_query() {
    let query = ProcessedQuery::new("".to_string(), vec![], embedding(), vec![], SearchMode::Auto);

    assert_eq!(query.fts_query_string(), "");
    assert_eq!(query.expanded_fts_query_string(), "");
    assert_eq!(query.all_terms().len(), 0);
}

#[test]
fn all_terms_are_sorted_and_unique() {
    let query = ProcessedQuery::new(
        "q".to_string(),
        vec!["zeta".to_string(), "alpha".to_string(), "zeta".to_string()],
        vec![],
        vec!["beta".to_string(), "alpha".to_string()],
        SearchMode::Auto,
    );
    assert_eq!(query.all_terms(), vec!["alpha", "beta", "zeta"]);
}

#[test]
fn exact_expanded_fts_query() {
    let query = ProcessedQuery::new(
        "auth login".to_string(),
        vec!["auth".to_string(), "login".to_string()],
        vec![],
        vec!["authentication".to_string(), "signin".to_string()],
        SearchMode::Auto,
    );
    assert_eq!(query.expanded_fts_query_string(), "(auth | authentication) & login");
}

#[test]
fn escaping_trims_after_removing_operators() {
    let query = ProcessedQuery::new(
        "x".to_string(),
        vec![" (a|b) ".to_string(), "c'd\"".to_string()],
        vec![],
        vec![],
        SearchMode::Auto,
    );
    assert_eq!(query.fts_query_string(), "ab & cd");
}
