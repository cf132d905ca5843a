use maproom::migrate::markdown::{
    build_ts_doc, extract_preview, text_lines, FileMigrationStats, MarkdownMigrator,
    MigrationCounts,
};
use maproom::profiling::{get_profiling_data, init_profiling, profile_operation};
use maproom::search::dedup::{ChunkIdentity, DeduplicationConfig, SelectionStrategy};
use maproom::search::executor_types::SearchSource;
use maproom::search::executors::SearchExecutors;
use maproom::search::fts::FTSExecutor;
use maproom::search::fusion::BasicWeightedFusion;
use maproom::search::graph::{GraphError, GraphExecutor};
use maproom::search::pipeline::{ChunkDetails, PipelineError};
use maproom::search::results::{QueryProcessingDetails, SearchOptions};
use maproom::search::signals::SignalExecutor;
use maproom::search::types::SearchMode;

#[test]
fn test_search_source_name() {
    assert_eq!(SearchSource::FTS.name(), "Full-Text Search");
    assert_eq!(SearchSource::Vector.name(), "Vector Similarity");
    assert_eq!(SearchSource::Graph.name(), "Graph Importance");
    assert_eq!(SearchSource::Signals.name(), "Temporal Signals");
}

#[test]
fn test_fts_executor_exists() {
    let _executor = FTSExecutor;
}

#[test]
fn test_graph_executor_exists() {
    let _executor = GraphExecutor;
}

#[test]
fn test_signal_executor_exists() {
    let _executor = SignalExecutor;
}

#[test]
fn test_chunk_details_structure() {
    let details = ChunkDetails {
        file_id: 1,
        relpath: "src/main.rs".to_string(),
        symbol_name: Some("main".to_string()),
        kind: "function".to_string(),
        start_line: 10,
        end_line: 25,
        preview: "fn main() {".to_string(),
    };

    assert_eq!(details.file_id, 1);
    assert_eq!(details.relpath, "src/main.rs");
    assert_eq!(details.symbol_name, Some("main".to_string()));
}

#[test]
fn test_search_options_builder() {
    let options: SearchOptions<()> = SearchOptions::new(1, Some(2), 10)
        .with_skip_vector(true)
        .with_skip_graph(false);

    assert_eq!(options.repo_id, 1);
    assert_eq!(options.worktree_id, Some(2));
    assert_eq!(options.limit, 10);
    assert!(options.skip_vector);
    assert!(!options.skip_graph);
}

#[test]
fn test_search_options_deduplicate_default() {
    let options: SearchOptions<()> = SearchOptions::new(1, None, 10);
    assert!(options.deduplicate, "Deduplication should be enabled by default");
}

#[test]
fn test_search_options_without_dedup() {
    let options: SearchOptions<()> = SearchOptions::new(1, None, 10).without_dedup();
    assert!(!options.deduplicate, "without_dedup should disable deduplication");
}

#[test]
fn test_search_options_with_deduplicate() {
    let options: SearchOptions<()> = SearchOptions::new(1, None, 10).without_dedup().with_deduplicate(true);
    assert!(options.deduplicate, "with_deduplicate(true) should enable deduplication");

    let options: SearchOptions<()> = SearchOptions::new(1, None, 10).with_deduplicate(false);
    assert!(!options.deduplicate, "with_deduplicate(false) should disable deduplication");
}

#[test]
fn fusion_weights_given_or_default() {
    let options: SearchOptions<u32> = SearchOptions::new(1, None, 10);
    assert_eq!(options.get_fusion_weights(), 0);
    let options = options.with_fusion_weights(7).with_skip_signals(true);
    assert_eq!(options.get_fusion_weights(), 7);
    assert!(options.skip_signals);
}

#[test]
fn query_processing_details_hold_their_parts() {
    let d = QueryProcessingDetails::new("q".to_string(), SearchMode::Code, 2, 3, "a & b".to_string(), true);
    assert_eq!(d.original, "q");
    assert_eq!(d.mode, SearchMode::Code);
    assert_eq!(d.token_count, 2);
    assert_eq!(d.expanded_term_count, 3);
    assert_eq!(d.fts_query, "a & b");
    assert!(d.has_embedding);
}

#[test]
fn error_messages_match_their_display() {
    let e = PipelineError::Database("locked".to_string());
    assert_eq!(e.message(), "Database error: locked");
    assert_eq!(GraphError::NoGraphData.message(), "No graph data available");
}

#[test]
fn executors_and_fusion_construct() {
    let executors = SearchExecutors::new(42u8);
    assert_eq!(*executors.store(), 42);
    assert_eq!(BasicWeightedFusion::new(), BasicWeightedFusion);
}

#[test]
fn dedup_settings_and_identity() {
    let config = DeduplicationConfig::default();
    assert!(config.enabled);
    assert_eq!(config.strategy, SelectionStrategy::HighestScore);
    let id = ChunkIdentity::from_parts("src/a.rs", &None, 3);
    assert_eq!(id.symbol_name, "");
    assert_eq!(id, ChunkIdentity::from_parts("src/a.rs", &Some(String::new()), 3));
}

#[test]
fn profiling_without_profiler() {
    init_profiling();
    assert_eq!(profile_operation("op", || 41 + 1), 42);
    assert!(get_profiling_data().is_empty());
}

#[test]
fn lines_like_std() {
    for s in ["", "a", "a\n", "a\n\nb", "a\r\nb\r\n", "a\r", "\n", "x\ry\n"] {
        let ours = text_lines(s);
        let std: Vec<String> = s.lines().map(|l| l.to_string()).collect();
        assert_eq!(ours, std, "input {:?}", s);
    }
}

#[test]
fn previews_of_chunks() {
    let content = "line1\nline2\nline3\nline4";
    assert_eq!(extract_preview(content, 2, 3), "line2\nline3");
    assert_eq!(extract_preview(content, 0, 1), "line1");
    assert_eq!(extract_preview(content, 3, 10), "line3\nline4");
    let long: String = (1..=50).map(|i| format!("l{}\n", i)).collect();
    let preview = extract_preview(&long, 1, 50);
    assert_eq!(preview.lines().count(), 40);
    assert!(preview.ends_with("l40"));
}

#[test]
fn ts_doc_joins_present_fields() {
    let doc = build_ts_doc("docs/a.md", &Some("Intro".to_string()), &None, &Some("About".to_string()), "text");
    assert_eq!(doc, "docs/a.md \n Intro \n About \n text");
}

#[test]
fn migration_counts() {
    let mut counts = MigrationCounts::default();
    let stats = FileMigrationStats { file_id: 1, relpath: "a.md".to_string(), old_chunks: 3, new_chunks: 5, delta: 2 };
    counts.record_file(&stats);
    counts.record_error();
    assert_eq!(counts.files_processed, 1);
    assert_eq!(counts.files_with_errors, 1);
    assert_eq!(counts.delta(), 2);
    let migrator = MarkdownMigrator::new("store");
    assert_eq!(*migrator.store(), "store");
}
