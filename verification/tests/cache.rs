use maproom::search::cache::{CacheKey, CacheStats};
use maproom::search::results::SearchOptions;

#[test]
fn test_cache_key_normalization() {
    let key1 = CacheKey::new("authenticate", 1, None, 10);
    let key2 = CacheKey::new("  AUTHENTICATE  ", 1, None, 10);
    let key3 = CacheKey::new("Authenticate", 1, None, 10);

    assert_eq!(key1, key2);
    assert_eq!(key1, key3);
    assert_eq!(key2, key3);
}

#[test]
fn test_cache_key_different_params() {
    let key1 = CacheKey::new("auth", 1, None, 10);
    let key2 = CacheKey::new("auth", 2, None, 10);
    let key3 = CacheKey::new("auth", 1, Some(1), 10);
    let key4 = CacheKey::new("auth", 1, None, 20);

    assert_ne!(key1, key2);
    assert_ne!(key1, key3);
    assert_ne!(key1, key4);
}

#[test]
fn test_cache_stats_calculations() {
    let stats = CacheStats { capacity: 100, size: 80, hits: 70, misses: 30, evictions: 10 };

    assert_eq!(stats.total_queries(), 100);
    assert!(stats.is_effective());
}

#[test]
fn half_hits_is_not_effective() {
    let stats = CacheStats { capacity: 10, size: 1, hits: 50, misses: 50, evictions: 0 };
    assert!(!stats.is_effective());
    let stats = CacheStats { capacity: 10, size: 1, hits: 0, misses: 0, evictions: 0 };
    assert!(!stats.is_effective());
    assert_eq!(stats.total_queries(), 0);
}

#[test]
fn key_from_options() {
    let options: SearchOptions<()> = SearchOptions::new(7, Some(3), 25);
    let key = CacheKey::from_options("  Query ", &options);
    assert_eq!(key, CacheKey::new("query", 7, Some(3), 25));
    assert_eq!(key.query, "query");
}

#[test]
fn normalizing_a_normalized_key_is_stable() {
    let key = CacheKey::new("\t Mixed Case Query \n", 1, None, 5);
    let again = CacheKey::new(&key.query, 1, None, 5);
    assert_eq!(key, again);
}
