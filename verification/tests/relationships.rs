use maproom::search::relationships::{
    compute_edge_weight, extract_parent_dir, infer_relationship_type, same_module,
    truncate_preview, EdgeWeight,
};

#[test]
fn test_edge_weight_computation() {
    assert_eq!(compute_edge_weight("extends", "class"), EdgeWeight::InheritanceBoost);
    assert_eq!(compute_edge_weight("implements", "interface"), EdgeWeight::InheritanceBoost);

    assert_eq!(compute_edge_weight("calls", "test"), EdgeWeight::TestPenalty);
    assert_eq!(compute_edge_weight("", "test_function"), EdgeWeight::TestPenalty);
    assert_eq!(compute_edge_weight("calls", "unit_test"), EdgeWeight::TestPenalty);

    assert_eq!(compute_edge_weight("calls", "function"), EdgeWeight::Default);
    assert_eq!(compute_edge_weight("imports", "module"), EdgeWeight::Default);
    assert_eq!(compute_edge_weight("", "class"), EdgeWeight::Default);
}

#[test]
fn test_module_proximity_boost() {
    let same_dir = "src/module";
    let different_dir = "src/other";

    assert!(same_module(same_dir, same_dir));
    assert!(!same_module(same_dir, different_dir));
    assert!(!same_module("", ""));
}

#[test]
fn test_relevance_sorting() {
    let mut chunks = vec![(0.5, "chunk_a"), (0.9, "chunk_b"), (0.3, "chunk_c"), (0.7, "chunk_d")];

    chunks.sort_by(|a, b| b.0.partial_cmp(&a.0).unwrap_or(std::cmp::Ordering::Equal));

    assert_eq!(chunks[0].1, "chunk_b");
    assert_eq!(chunks[1].1, "chunk_d");
    assert_eq!(chunks[2].1, "chunk_a");
    assert_eq!(chunks[3].1, "chunk_c");
}

#[test]
fn test_preview_truncation() {
    assert_eq!(truncate_preview("short", 100), "short");

    let exact = "a".repeat(100);
    assert_eq!(truncate_preview(&exact, 100), exact);

    let long_content = "a".repeat(150);
    let expected = format!("{}...", "a".repeat(100));
    assert_eq!(truncate_preview(&long_content, 100), expected);

    assert_eq!(truncate_preview("", 100), "");

    assert_eq!(truncate_preview("content", 0), "...");
}

#[test]
fn test_extract_parent_dir() {
    assert_eq!(extract_parent_dir("src/module/file.rs"), "src/module");
    assert_eq!(extract_parent_dir("a/b/c/d.txt"), "a/b/c");
    assert_eq!(extract_parent_dir("src/file.rs"), "src");

    assert_eq!(extract_parent_dir("file.rs"), "");
    assert_eq!(extract_parent_dir(""), "");
    assert_eq!(extract_parent_dir("/"), "");

    assert_eq!(extract_parent_dir("a/b/c/d/e/f.txt"), "a/b/c/d/e");
}

#[test]
fn test_empty_related_chunks() {
    let scored_chunks: Vec<(f32, &str)> = vec![];

    let top_results: Vec<&str> = scored_chunks.into_iter().take(5).map(|(_, result)| result).collect();

    assert_eq!(top_results.len(), 0);
}

#[test]
fn test_fewer_than_limit() {
    let scored_chunks = vec![(0.9, "chunk_a"), (0.5, "chunk_b")];

    let top_results: Vec<&str> = scored_chunks.into_iter().take(5).map(|(_, result)| result).collect();

    assert_eq!(top_results.len(), 2);
    assert_eq!(top_results[0], "chunk_a");
    assert_eq!(top_results[1], "chunk_b");
}

#[test]
fn test_infer_relationship_type() {
    assert_eq!(infer_relationship_type(1), "direct");
    assert_eq!(infer_relationship_type(2), "indirect");
    assert_eq!(infer_relationship_type(3), "unknown");
    assert_eq!(infer_relationship_type(0), "unknown");
}

#[test]
fn truncation_counts_characters() {
    // Two-byte characters count once each.
    assert_eq!(truncate_preview("\u{e9}\u{e9}\u{e9}", 4), "\u{e9}\u{e9}\u{e9}");
    assert_eq!(truncate_preview("\u{e9}\u{e9}\u{e9}", 2), "\u{e9}\u{e9}...");
    assert_eq!(truncate_preview("\u{e9}\u{e9}", 1), "\u{e9}...");
}
