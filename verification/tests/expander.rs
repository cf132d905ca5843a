use maproom::search::expander::QueryExpander;
use std::collections::HashSet;

#[test]
fn test_function_synonyms() {
    let expander = QueryExpander::new();
    let expanded = expander.expand(&["function".to_string()]);

    assert!(expanded.contains(&"fn".to_string()));
    assert!(expanded.contains(&"func".to_string()));
    assert!(expanded.contains(&"method".to_string()));
}

#[test]
fn test_auth_synonyms() {
    let expander = QueryExpander::new();
    let expanded = expander.expand(&["auth".to_string()]);

    assert!(expanded.contains(&"authentication".to_string()));
    assert!(expanded.contains(&"authorize".to_string()));
    assert!(expanded.contains(&"login".to_string()));
}

#[test]
fn test_multiple_tokens() {
    let expander = QueryExpander::new();
    let expanded = expander.expand(&["auth".to_string(), "error".to_string()]);

    assert!(expanded.contains(&"authentication".to_string()));
    assert!(expanded.contains(&"err".to_string()));
    assert!(expanded.contains(&"exception".to_string()));
}

#[test]
fn test_no_synonyms() {
    let expander = QueryExpander::new();
    let expanded = expander.expand(&["unknownterm".to_string()]);

    assert!(expanded.is_empty() || !expanded.contains(&"unknownterm".to_string()));
}

#[test]
fn test_prefix_matching() {
    let expander = QueryExpander::new();
    let expanded = expander.expand(&["authentication".to_string()]);

    assert!(expanded.contains(&"auth".to_string()) || expanded.contains(&"login".to_string()));
}

#[test]
fn test_deduplication() {
    let expander = QueryExpander::new();
    let expanded = expander.expand(&["fn".to_string(), "function".to_string()]);

    let unique_count = expanded.iter().collect::<HashSet<_>>().len();
    assert_eq!(unique_count, expanded.len());
}

#[test]
fn test_custom_synonyms() {
    let synonyms = vec![(
        "custom".to_string(),
        vec!["synonym1".to_string(), "synonym2".to_string()],
    )];

    let expander = QueryExpander::with_synonyms(synonyms);
    let expanded = expander.expand(&["custom".to_string()]);

    assert_eq!(expanded.len(), 2);
    assert!(expanded.contains(&"synonym1".to_string()));
    assert!(expanded.contains(&"synonym2".to_string()));
}

#[test]
fn test_add_synonym() {
    let mut expander = QueryExpander::new();
    expander.add_synonym(
        "newterm".to_string(),
        vec!["related1".to_string(), "related2".to_string()],
    );

    let expanded = expander.expand(&["newterm".to_string()]);
    assert!(expanded.contains(&"related1".to_string()));
    assert!(expanded.contains(&"related2".to_string()));
}

#[test]
fn test_get_synonyms() {
    let expander = QueryExpander::new();

    let synonyms = expander.get_synonyms("auth");
    assert!(synonyms.is_some());
    assert!(synonyms.unwrap().contains(&"authentication".to_string()));

    let synonyms = expander.get_synonyms("nonexistent");
    assert!(synonyms.is_none());
}

#[test]
fn test_database_synonyms() {
    let expander = QueryExpander::new();
    let expanded = expander.expand(&["database".to_string()]);

    assert!(expanded.contains(&"db".to_string()));
    assert!(expanded.contains(&"store".to_string()));
}

#[test]
fn test_class_synonyms() {
    let expander = QueryExpander::new();
    let expanded = expander.expand(&["class".to_string()]);

    assert!(expanded.contains(&"type".to_string()));
    assert!(expanded.contains(&"struct".to_string()));
    assert!(expanded.contains(&"object".to_string()));
}

#[test]
fn test_empty_tokens() {
    let expander = QueryExpander::new();
    let expanded = expander.expand(&[]);
    assert!(expanded.is_empty());
}

#[test]
fn test_sorted_output() {
    let expander = QueryExpander::new();
    let expanded = expander.expand(&["auth".to_string()]);

    let mut sorted = expanded.clone();
    sorted.sort();
    assert_eq!(expanded, sorted);
}

#[test]
fn short_tokens_do_not_prefix_match() {
    // "conf" is four bytes: only its own entry (none) counts, not "config".
    let expander = QueryExpander::new();
    assert!(expander.expand(&["conf".to_string()]).is_empty());
    // "configs" is longer and starts with "config": config's synonyms come in.
    let expanded = expander.expand(&["configs".to_string()]);
    assert_eq!(expanded, vec!["configuration", "settings"]);
}

#[test]
fn exact_expansion_of_response() {
    let expander = QueryExpander::new();
    let expanded = expander.expand(&["response".to_string()]);
    assert_eq!(expanded, vec!["res", "resp"]);
}

#[test]
fn later_binding_replaces_earlier() {
    let expander = QueryExpander::with_synonyms(vec![
        ("term".to_string(), vec!["first".to_string()]),
        ("term".to_string(), vec!["second".to_string()]),
    ]);
    assert_eq!(expander.get_synonyms("term").unwrap(), &vec!["second".to_string()]);
}
