use maproom::metrics::cache_metrics::CacheMetrics;

#[test]
fn test_new_metrics() {
    let metrics = CacheMetrics::new();
    assert_eq!(metrics.hits(), 0);
    assert_eq!(metrics.misses(), 0);
}

#[test]
fn test_record_hit() {
    let mut metrics = CacheMetrics::new();
    metrics.record_hit();
    assert_eq!(metrics.hits(), 1);
    assert_eq!(metrics.misses(), 0);

    metrics.record_hit();
    assert_eq!(metrics.hits(), 2);
}

#[test]
fn test_record_miss() {
    let mut metrics = CacheMetrics::new();
    metrics.record_miss();
    assert_eq!(metrics.hits(), 0);
    assert_eq!(metrics.misses(), 1);

    metrics.record_miss();
    assert_eq!(metrics.misses(), 2);
}

#[test]
fn cache_metrics_test_reset() {
    let mut metrics = CacheMetrics::new();

    metrics.record_hit();
    metrics.record_miss();
    assert_eq!(metrics.hits(), 1);
    assert_eq!(metrics.misses(), 1);

    metrics.reset();
    assert_eq!(metrics.hits(), 0);
    assert_eq!(metrics.misses(), 0);
}

#[test]
fn embeddings_generated_are_the_misses() {
    let mut metrics = CacheMetrics::default();
    for _ in 0..2000 {
        metrics.record_miss();
    }
    metrics.record_hit();
    assert_eq!(metrics.embeddings_generated(), 2000);
}
