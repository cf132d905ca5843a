use maproom::search::results::{line_count, line_range};
use maproom::search::cache::put_evicts;
use maproom::search::memory::{total_estimated_mb, CacheMemoryStats, DEFAULT_MEMORY_LIMIT_MB};
use maproom::search::pipeline::{related_expansion_step, ExpansionStep, MAX_RELATED_EXPANSIONS};

#[test]
fn test_cache_memory_estimate_rounds_down_to_megabytes() {
    let s = CacheMemoryStats::estimate(127, 1000);
    assert_eq!(s.size, 127);
    assert_eq!(s.capacity, 1000);
    assert_eq!(s.estimated_mb, 0);
    let s = CacheMemoryStats::estimate(128, 1000);
    assert_eq!(s.estimated_mb, 1);
    let s = CacheMemoryStats::estimate(1000, 1000);
    assert_eq!(s.estimated_mb, 7);
}

#[test]
fn test_total_memory_adds_bytes_before_rounding() {
    // Each cache alone rounds down to 0 MB; together they make 1 MB.
    assert_eq!(total_estimated_mb(&vec![64, 64]), 1);
    assert_eq!(total_estimated_mb(&vec![]), 0);
    assert_eq!(total_estimated_mb(&vec![1000, 1000, 128]), 16);
    assert_eq!(DEFAULT_MEMORY_LIMIT_MB, 500);
}

#[test]
fn test_put_evicts_only_new_keys_into_full_cache() {
    assert!(put_evicts(2, 2, false));
    assert!(!put_evicts(2, 2, true));
    assert!(!put_evicts(1, 2, false));
    assert!(put_evicts(3, 2, false));
}

#[test]
fn test_related_expansion_steps() {
    assert_eq!(MAX_RELATED_EXPANSIONS, 3);
    assert_eq!(related_expansion_step(0, Some((2, false))), ExpansionStep::Expand);
    assert_eq!(related_expansion_step(0, Some((1, true))), ExpansionStep::Expand);
    assert_eq!(related_expansion_step(0, Some((1, false))), ExpansionStep::Skip);
    assert_eq!(related_expansion_step(2, None), ExpansionStep::Skip);
    assert_eq!(related_expansion_step(3, Some((4, true))), ExpansionStep::Stop);
}

#[test]
fn test_chunk_search_result_line_range() {
    assert_eq!(line_range(10, 25), "10-25");
    assert_eq!(line_count(10, 25), 16);
}

#[test]
fn test_line_range_of_negative_and_single_lines() {
    assert_eq!(line_range(-3, 7), "-3-7");
    assert_eq!(line_count(5, 5), 1);
}
