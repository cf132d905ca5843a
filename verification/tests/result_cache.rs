use maproom::search::cache::CacheKey;
use maproom::search::result_cache::ResultCache;

#[test]
fn test_cache_basic_operations() {
    let mut cache = ResultCache::new(2);
    let key1 = CacheKey::new("test", 1, None, 10);

    assert!(cache.get(&key1).is_none());

    cache.put(key1.clone(), 7);
    assert!(cache.get(&key1).is_some());

    let stats = cache.stats();
    assert_eq!(stats.hits, 1);
    assert_eq!(stats.misses, 1);
}

#[test]
fn test_cache_lru_eviction() {
    let mut cache = ResultCache::new(2);
    let key1 = CacheKey::new("query1", 1, None, 10);
    let key2 = CacheKey::new("query2", 1, None, 10);
    let key3 = CacheKey::new("query3", 1, None, 10);

    cache.put(key1.clone(), 1);
    cache.put(key2.clone(), 2);

    assert!(cache.get(&key1).is_some());
    assert!(cache.get(&key2).is_some());

    cache.put(key3.clone(), 3);

    assert!(cache.get(&key1).is_none());
    assert!(cache.get(&key2).is_some());
    assert!(cache.get(&key3).is_some());

    let stats = cache.stats();
    assert_eq!(stats.evictions, 1);
}

#[test]
fn put_returns_what_the_cache_let_go() {
    let mut cache = ResultCache::new(2);
    let a = CacheKey::new("a", 1, None, 10);
    let b = CacheKey::new("b", 1, None, 10);
    let c = CacheKey::new("c", 1, None, 10);
    assert_eq!(cache.put(a.clone(), 10), None);
    assert_eq!(cache.put(b.clone(), 20), None);
    // Updating a key gives back its old value and makes it most recent.
    assert_eq!(cache.put(a.clone(), 11), Some(10));
    // A new key in a full cache evicts the least recently used entry (b).
    assert_eq!(cache.put(c.clone(), 30), Some(20));
    assert_eq!(cache.get(&a), Some(11));
    assert_eq!(cache.get(&b), None);
    assert_eq!(cache.get(&c), Some(30));
    let stats = cache.stats();
    assert_eq!((stats.size, stats.capacity, stats.evictions), (2, 2, 1));
}

#[test]
fn keys_are_normalized_before_lookup() {
    let mut cache = ResultCache::new(4);
    cache.put(CacheKey::new("authenticate", 1, None, 10), 5);
    assert_eq!(cache.get(&CacheKey::new("  AUTHENTICATE  ", 1, None, 10)), Some(5));
    assert_eq!(cache.get(&CacheKey::new("authenticate", 1, Some(2), 10)), None);
    assert_eq!(cache.get(&CacheKey::new("authenticate", 1, None, 20)), None);
}

#[test]
fn clear_and_reset_stats() {
    let mut cache = ResultCache::default();
    let k = CacheKey::new("q", 1, None, 10);
    cache.put(k.clone(), 1);
    assert_eq!(cache.get(&k), Some(1));
    cache.clear();
    assert_eq!(cache.get(&k), None);
    let stats = cache.stats();
    assert_eq!((stats.size, stats.capacity, stats.hits, stats.misses), (0, 1000, 1, 1));
    cache.reset_stats();
    let stats = cache.stats();
    assert_eq!((stats.hits, stats.misses, stats.evictions), (0, 0, 0));
}
