//! Memory statistics of the search caches.

use vstd::prelude::*;

verus! {

/// Memory limit of all monitored caches together, in megabytes.
pub const DEFAULT_MEMORY_LIMIT_MB: usize = 500;

/// Estimated memory of one cached search result entry, in bytes.
pub const ESTIMATED_BYTES_PER_SEARCH_ENTRY: usize = 8192;

/// Bytes in a megabyte.
pub const BYTES_PER_MB: usize = 1048576;

/// Memory statistics for a single cache.
#[derive(Debug, Clone, Copy, PartialEq, Eq, Structural)]
pub struct CacheMemoryStats {
    /// Current number of entries.
    pub size: usize,
    /// Maximum capacity.
    pub capacity: usize,
    /// Estimated memory usage in MB.
    pub estimated_mb: usize,
}

impl CacheMemoryStats {
    /// The statistics of a cache with `size` entries out of `capacity`: each
    /// entry is estimated at 8 KiB, rounded down to whole megabytes.
    pub fn estimate(size: usize, capacity: usize) -> (s: Self)
        requires
            size * ESTIMATED_BYTES_PER_SEARCH_ENTRY <= usize::MAX,
        ensures
            s.size == size,
            s.capacity == capacity,
            s.estimated_mb == size * ESTIMATED_BYTES_PER_SEARCH_ENTRY / (BYTES_PER_MB as int),
    {
        let bytes = size * ESTIMATED_BYTES_PER_SEARCH_ENTRY;
        CacheMemoryStats { size, capacity, estimated_mb: bytes / BYTES_PER_MB }
    }
}

/// The number of entries of all caches together.
pub open spec fn total_entries(sizes: Seq<usize>) -> nat
    decreases sizes.len(),
{
    if sizes.len() == 0 {
        0
    } else {
        total_entries(sizes.drop_last()) + sizes.last() as nat
    }
}

proof fn lemma_total_entries_prefix(sizes: Seq<usize>, k: int)
    requires
        0 <= k <= sizes.len(),
    ensures
        total_entries(sizes.take(k)) <= total_entries(sizes),
        k < sizes.len() ==> total_entries(sizes.take(k + 1)) == total_entries(sizes.take(k))
            + sizes[k],
    decreases sizes.len(),
{
    if k < sizes.len() {
        assert(sizes.take(k + 1).drop_last() =~= sizes.take(k));
        lemma_total_entries_prefix(sizes.drop_last(), k);
        assert(sizes.drop_last().take(k) =~= sizes.take(k));
    } else {
        assert(sizes.take(k) =~= sizes);
    }
}

/// Estimated memory of all caches together, in whole megabytes: the bytes
/// of all entries are added up before rounding down.
pub fn total_estimated_mb(sizes: &Vec<usize>) -> (mb: usize)
    requires
        total_entries(sizes@) * ESTIMATED_BYTES_PER_SEARCH_ENTRY <= usize::MAX,
    ensures
        mb == total_entries(sizes@) * ESTIMATED_BYTES_PER_SEARCH_ENTRY / (BYTES_PER_MB as int),
{
    let mut bytes: usize = 0;
    let mut k: usize = 0;
    while k < sizes.len()
        invariant
            k <= sizes.len(),
            total_entries(sizes@) * ESTIMATED_BYTES_PER_SEARCH_ENTRY <= usize::MAX,
            bytes == total_entries(sizes@.take(k as int)) * ESTIMATED_BYTES_PER_SEARCH_ENTRY,
        decreases sizes.len() - k,
    {
        proof {
            lemma_total_entries_prefix(sizes@, k as int);
            lemma_total_entries_prefix(sizes@, k as int + 1);
        }
        bytes = bytes + sizes[k] * ESTIMATED_BYTES_PER_SEARCH_ENTRY;
        k = k + 1;
    }
    proof {
        assert(sizes@.take(k as int) =~= sizes@);
    }
    bytes / BYTES_PER_MB
}

} // verus!
