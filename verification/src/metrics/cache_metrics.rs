//! Cache metrics for embedding deduplication: hits reuse an embedding,
//! misses generate one. The counters wrap around as atomic counters do.

use vstd::prelude::*;

verus! {

/// Metrics for embedding cache effectiveness.
#[derive(Debug)]
pub struct CacheMetrics {
    cache_hits: u64,
    cache_misses: u64,
}

impl CacheMetrics {
    /// The number of hits recorded.
    pub closed spec fn hit_count(&self) -> u64 {
        self.cache_hits
    }

    /// The number of misses recorded.
    pub closed spec fn miss_count(&self) -> u64 {
        self.cache_misses
    }

    /// New metrics with no hit and no miss.
    pub fn new() -> (m: Self)
        ensures
            m.hit_count() == 0,
            m.miss_count() == 0,
    {
        CacheMetrics { cache_hits: 0, cache_misses: 0 }
    }

    /// Record a cache hit.
    pub fn record_hit(&mut self)
        ensures
            final(self).hit_count() == vstd::wrapping::u64_specs::wrapping_add(
                old(self).hit_count(),
                1,
            ),
            final(self).miss_count() == old(self).miss_count(),
    {
        self.cache_hits = self.cache_hits.wrapping_add(1);
    }

    /// Record a cache miss.
    pub fn record_miss(&mut self)
        ensures
            final(self).miss_count() == vstd::wrapping::u64_specs::wrapping_add(
                old(self).miss_count(),
                1,
            ),
            final(self).hit_count() == old(self).hit_count(),
    {
        self.cache_misses = self.cache_misses.wrapping_add(1);
    }

    /// The total number of cache hits.
    pub fn hits(&self) -> (n: u64)
        ensures
            n == self.hit_count(),
    {
        self.cache_hits
    }

    /// The total number of cache misses.
    pub fn misses(&self) -> (n: u64)
        ensures
            n == self.miss_count(),
    {
        self.cache_misses
    }

    /// The number of embeddings generated: one per miss.
    pub fn embeddings_generated(&self) -> (n: u64)
        ensures
            n == self.miss_count(),
    {
        self.misses()
    }

    /// Reset both counters to zero.
    pub fn reset(&mut self)
        ensures
            final(self).hit_count() == 0,
            final(self).miss_count() == 0,
    {
        self.cache_hits = 0;
        self.cache_misses = 0;
    }
}

impl Default for CacheMetrics {
    fn default() -> (m: Self)
        ensures
            m.hit_count() == 0,
            m.miss_count() == 0,
    {
        Self::new()
    }
}

} // verus!
