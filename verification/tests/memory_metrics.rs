use maproom::memory::metrics::{ComponentMetrics, MemoryMetrics};

#[test]
fn test_basic_allocation() {
    let mut metrics = MemoryMetrics::new();

    metrics.record_allocation("test", 1024);

    assert_eq!(metrics.allocation_count(), 1);
    assert_eq!(metrics.current_bytes(), 1024);
    assert_eq!(metrics.peak_bytes(), 1024);
    assert_eq!(metrics.total_allocated_bytes(), 1024);
}

#[test]
fn test_allocation_and_deallocation() {
    let mut metrics = MemoryMetrics::new();

    metrics.record_allocation("test", 1024);
    metrics.record_deallocation("test", 512);

    assert_eq!(metrics.allocation_count(), 1);
    assert_eq!(metrics.deallocation_count(), 1);
    assert_eq!(metrics.current_bytes(), 512);
    assert_eq!(metrics.peak_bytes(), 1024);
}

#[test]
fn metrics_test_peak_tracking() {
    let mut metrics = MemoryMetrics::new();

    metrics.record_allocation("test", 1000);
    metrics.record_allocation("test", 500);
    assert_eq!(metrics.peak_bytes(), 1500);

    metrics.record_deallocation("test", 1000);
    assert_eq!(metrics.current_bytes(), 500);
    assert_eq!(metrics.peak_bytes(), 1500);
}

#[test]
fn test_component_tracking() {
    let mut metrics = MemoryMetrics::new();

    metrics.record_allocation("indexer", 1024);
    metrics.record_allocation("search", 2048);

    let indexer_metrics = metrics.component_metrics("indexer").unwrap();
    assert_eq!(indexer_metrics.allocations, 1);
    assert_eq!(indexer_metrics.current_bytes, 1024);

    let search_metrics = metrics.component_metrics("search").unwrap();
    assert_eq!(search_metrics.allocations, 1);
    assert_eq!(search_metrics.current_bytes, 2048);
}

#[test]
fn test_component_deallocation() {
    let mut metrics = MemoryMetrics::new();

    metrics.record_allocation("indexer", 1024);
    metrics.record_deallocation("indexer", 512);

    let indexer_metrics = metrics.component_metrics("indexer").unwrap();
    assert_eq!(indexer_metrics.allocations, 1);
    assert_eq!(indexer_metrics.deallocations, 1);
    assert_eq!(indexer_metrics.current_bytes, 512);
    assert_eq!(indexer_metrics.peak_bytes, 1024);
}

#[test]
fn test_snapshot() {
    let mut metrics = MemoryMetrics::new();

    metrics.record_allocation("test", 1024);
    metrics.record_allocation("test", 2048);

    let snapshot = metrics.snapshot();

    assert_eq!(snapshot.allocation_count, 2);
    assert_eq!(snapshot.current_bytes, 3072);
    assert_eq!(snapshot.live_allocations(), 2);
}

#[test]
fn test_component_metrics_calculations() {
    let mut component = ComponentMetrics::default();

    component.allocations = 10;
    component.deallocations = 3;
    component.total_allocated_bytes = 10240;
    component.current_bytes = 7168;
    component.peak_bytes = 10 * 1024 * 1024;

    assert_eq!(component.live_allocations(), 7);
}

#[test]
fn metrics_test_reset() {
    let mut metrics = MemoryMetrics::new();

    metrics.record_allocation("test", 1024);
    assert_eq!(metrics.allocation_count(), 1);

    metrics.reset();

    assert_eq!(metrics.allocation_count(), 0);
    assert_eq!(metrics.current_bytes(), 0);
    assert_eq!(metrics.peak_bytes(), 0);
    assert!(metrics.component_metrics("test").is_none());
}

#[test]
fn test_all_component_metrics() {
    let mut metrics = MemoryMetrics::new();

    metrics.record_allocation("indexer", 1024);
    metrics.record_allocation("search", 2048);
    metrics.record_allocation("cache", 4096);

    let all_metrics = metrics.all_component_metrics();

    assert_eq!(all_metrics.len(), 3);
    assert!(all_metrics.contains_key("indexer"));
    assert!(all_metrics.contains_key("search"));
    assert!(all_metrics.contains_key("cache"));
}

#[test]
fn test_zero_division_safety() {
    let component = ComponentMetrics::default();
    assert_eq!(component.live_allocations(), 0);
}

#[test]
fn deallocating_unknown_component_only_counts_globally() {
    let mut metrics = MemoryMetrics::new();
    metrics.record_allocation("a", 100);
    metrics.record_deallocation("b", 40);
    assert_eq!(metrics.current_bytes(), 60);
    assert_eq!(metrics.deallocation_count(), 1);
    assert!(metrics.component_metrics("b").is_none());
}

#[test]
fn over_release_wraps_globally_and_saturates_per_component() {
    let mut metrics = MemoryMetrics::new();
    metrics.record_allocation("a", 10);
    metrics.record_deallocation("a", 20);
    assert_eq!(metrics.current_bytes(), u64::MAX - 9);
    assert_eq!(metrics.component_metrics("a").unwrap().current_bytes, 0);
}
