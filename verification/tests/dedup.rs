use maproom::search::pipeline::assemble_order;
use maproom::search::dedup::{
    deduplicate, deduplicate_search_hits, ChunkIdentity, DeduplicationConfig, RankedEntry,
    SelectionStrategy,
};

/// Scores in these tests have at most three decimals; a thousandth is one step.
fn rank_of(score: f32) -> u64 {
    (score * 1000.0).round() as u64
}

fn entry(relpath: &str, symbol_name: Option<&str>, start_line: i32, score: f32) -> RankedEntry {
    RankedEntry {
        relpath: relpath.to_string(),
        symbol_name: symbol_name.map(|s| s.to_string()),
        start_line,
        rank: rank_of(score),
    }
}

fn duplicates(count: usize, relpath: &str, symbol: &str, line: i32) -> Vec<RankedEntry> {
    (0..count)
        .map(|i| entry(relpath, Some(symbol), line, 0.9 - (i as f32 * 0.05)))
        .collect()
}

#[test]
fn test_identity_key_generation() {
    let id1 = ChunkIdentity::from_parts("src/auth.rs", &Some("validate".to_string()), 10);
    let id2 = ChunkIdentity::from_parts("src/auth.rs", &Some("validate".to_string()), 10);
    assert_eq!(id1, id2, "Same file/symbol/line should have same identity");
    let id3 = ChunkIdentity::from_parts("src/other.rs", &Some("validate".to_string()), 10);
    assert_ne!(id1, id3, "Different relpath should have different identity");
    let id4 = ChunkIdentity::from_parts("src/auth.rs", &Some("other".to_string()), 10);
    assert_ne!(id1, id4, "Different symbol should have different identity");
    let id5 = ChunkIdentity::from_parts("src/auth.rs", &Some("validate".to_string()), 20);
    assert_ne!(id1, id5, "Different line should have different identity");
}

#[test]
fn test_deduplicate_empty_results() {
    let results: Vec<RankedEntry> = vec![];
    let config = DeduplicationConfig::default();
    let deduplicated = deduplicate(&results, &config);
    assert!(deduplicated.is_empty(), "Empty input should return empty output");
}

#[test]
fn test_deduplicate_no_duplicates() {
    let results = vec![
        entry("src/a.rs", Some("func_a"), 10, 0.9),
        entry("src/b.rs", Some("func_b"), 20, 0.8),
        entry("src/c.rs", Some("func_c"), 30, 0.7),
    ];
    let config = DeduplicationConfig::default();
    let deduplicated = deduplicate(&results, &config);
    assert_eq!(deduplicated.len(), 3, "No duplicates should return same count");
}

#[test]
fn test_deduplicate_all_duplicates() {
    let results = duplicates(5, "src/auth.rs", "validate", 10);
    let config = DeduplicationConfig::default();
    let deduplicated = deduplicate(&results, &config);
    assert_eq!(deduplicated.len(), 1, "All duplicates should return one result");
    assert_eq!(deduplicated[0], 0);
}

#[test]
fn test_deduplicate_mixed() {
    let mut results = duplicates(3, "src/auth.rs", "validate", 10);
    results.push(entry("src/other.rs", Some("helper"), 5, 0.6));
    results.push(entry("src/other.rs", Some("helper"), 5, 0.5));
    let config = DeduplicationConfig::default();
    let deduplicated = deduplicate(&results, &config);
    assert_eq!(deduplicated.len(), 2, "3 duplicates + 2 duplicates = 2 unique");
    assert_eq!(deduplicated, vec![0, 3]);
}

#[test]
fn test_deduplicate_preserves_order() {
    let results = vec![
        entry("src/a.rs", Some("func_a"), 10, 0.5),
        entry("src/b.rs", Some("func_b"), 20, 0.9),
        entry("src/c.rs", Some("func_c"), 30, 0.7),
    ];
    let config = DeduplicationConfig::default();
    let deduplicated = deduplicate(&results, &config);
    assert_eq!(deduplicated.len(), 3);
    assert!(
        results[deduplicated[0]].rank >= results[deduplicated[1]].rank,
        "Results should be sorted by score"
    );
    assert!(
        results[deduplicated[1]].rank >= results[deduplicated[2]].rank,
        "Results should be sorted by score"
    );
    assert_eq!(deduplicated, vec![1, 2, 0]);
}

#[test]
fn test_highest_score_selection() {
    let results = vec![
        entry("src/auth.rs", Some("validate"), 10, 0.7),
        entry("src/auth.rs", Some("validate"), 10, 0.95),
        entry("src/auth.rs", Some("validate"), 10, 0.8),
    ];
    let config = DeduplicationConfig::default();
    let deduplicated = deduplicate(&results, &config);
    assert_eq!(deduplicated.len(), 1);
    assert_eq!(deduplicated[0], 1, "Should select highest scoring chunk");
    assert_eq!(results[deduplicated[0]].rank, 950);
}

#[test]
fn test_disabled_config() {
    let results = duplicates(5, "src/auth.rs", "validate", 10);
    let config = DeduplicationConfig { enabled: false, strategy: SelectionStrategy::HighestScore };
    let deduplicated = deduplicate(&results, &config);
    assert_eq!(deduplicated.len(), 5, "Disabled config should return all results");
    assert_eq!(deduplicated, vec![0, 1, 2, 3, 4]);
}

#[test]
fn test_null_symbol_name_handling() {
    let results = vec![
        entry("src/auth.rs", None, 10, 0.9),
        entry("src/auth.rs", None, 10, 0.8),
    ];
    let config = DeduplicationConfig::default();
    let deduplicated = deduplicate(&results, &config);
    assert_eq!(deduplicated.len(), 1, "Chunks with None symbol_name should be grouped together");

    let id1 = ChunkIdentity::from_parts("src/auth.rs", &None, 10);
    let id2 = ChunkIdentity::from_parts("src/auth.rs", &Some(String::new()), 10);
    assert_eq!(id1, id2, "None and empty string should be equivalent");
}

#[test]
fn test_equal_scores_keep_first_duplicate() {
    let results = vec![
        entry("src/x.rs", Some("f"), 1, 0.5),
        entry("src/y.rs", Some("g"), 2, 0.7),
        entry("src/x.rs", Some("f"), 1, 0.5),
    ];
    let deduplicated = deduplicate(&results, &DeduplicationConfig::default());
    assert_eq!(deduplicated, vec![1, 0]);
}

#[test]
fn test_missing_symbol_differs_from_empty_symbol_in_hits() {
    let hits = vec![entry("src/x.rs", None, 1, 0.5), entry("src/x.rs", Some(""), 1, 0.4)];
    assert_eq!(deduplicate_search_hits(&hits, 10), vec![0, 1]);
}

#[test]
fn test_search_hits_limit_applies_after_dedup() {
    let hits = vec![
        entry("src/a.rs", Some("a"), 1, 0.3),
        entry("src/a.rs", Some("a"), 1, 0.9),
        entry("src/b.rs", Some("b"), 2, 0.8),
        entry("src/c.rs", Some("c"), 3, 0.1),
    ];
    assert_eq!(deduplicate_search_hits(&hits, 2), vec![1, 2]);
    assert_eq!(deduplicate_search_hits(&hits, 10), vec![1, 2, 3]);
    assert!(deduplicate_search_hits(&hits, 0).is_empty());
    assert!(deduplicate_search_hits(&[].to_vec(), 5).is_empty());
}

#[test]
fn test_assemble_order_skips_missing_details_and_deduplicates() {
    let fused = || {
        vec![
            Some(entry("src/a.rs", Some("f"), 1, 0.5)),
            None,
            Some(entry("src/a.rs", Some("f"), 1, 0.9)),
            Some(entry("src/b.rs", Some("g"), 2, 0.7)),
        ]
    };
    assert_eq!(assemble_order(fused(), 10, false), vec![0, 2, 3]);
    assert_eq!(assemble_order(fused(), 10, true), vec![2, 3]);
    assert_eq!(assemble_order(fused(), 1, true), vec![2]);
    assert!(assemble_order(vec![None, None], 5, true).is_empty());
}
