//! Buffer pooling for reusable memory allocation.
//!
//! A pool hands out byte buffers, reusing returned ones before allocating
//! new ones, and keeps at most `max_pool_size` free buffers. A buffer is
//! handed back with `release`, or kept for good with `into_inner`.

use vstd::prelude::*;

verus! {

/// Statistics for buffer pool usage.
#[derive(Debug, Clone, Copy, PartialEq, Eq, Structural)]
pub struct PoolStats {
    /// Number of buffers currently in the pool.
    pub pool_size: usize,
    /// Number of buffers currently in use.
    pub in_use: usize,
    /// Peak number of buffers in use.
    pub peak_in_use: usize,
    /// Total number of buffers allocated.
    pub allocations: usize,
    /// Total number of buffers reused from the pool.
    pub reuses: usize,
}

impl Default for PoolStats {
    fn default() -> (s: Self)
        ensures
            s == (PoolStats { pool_size: 0, in_use: 0, peak_in_use: 0, allocations: 0, reuses: 0 }),
    {
        PoolStats { pool_size: 0, in_use: 0, peak_in_use: 0, allocations: 0, reuses: 0 }
    }
}

impl PoolStats {
    /// Total buffers acquired: allocations and reuses.
    pub fn total_acquires(&self) -> (n: usize)
        requires
            self.allocations + self.reuses <= usize::MAX,
        ensures
            n == self.allocations + self.reuses,
    {
        self.allocations + self.reuses
    }
}

/// The state of a pool: its statistics and configuration.
pub struct PoolView {
    pub stats: PoolStats,
    pub buffer_size: usize,
    pub max_pool_size: usize,
}

/// Buffer pool for reusable byte buffers.
pub struct BufferPool {
    free_buffers: Vec<Vec<u8>>,
    stats: PoolStats,
    buffer_size: usize,
    max_pool_size: usize,
}

/// A buffer borrowed from a `BufferPool`.
///
/// The type has no `Drop` of its own: a buffer goes back to its pool only
/// through `BufferPool::release`. One that is simply dropped is freed, and its
/// pool keeps counting it in use; `into_inner` is the way to keep the bytes
/// and tell the pool so.
pub struct PooledBuffer {
    buffer: Vec<u8>,
}

/// Calls `Vec::capacity`. The documentation promises only that the
/// capacity is at least the length; how much the allocator reserved is not
/// stated.
#[verifier::external_body]
fn vec_capacity(v: &Vec<u8>) -> (n: usize)
    ensures
        n >= v@.len(),
{
    v.capacity()
}

impl PooledBuffer {
    /// The bytes held.
    pub closed spec fn bytes(&self) -> Seq<u8> {
        self.buffer@
    }

    /// The capacity of the buffer.
    pub fn capacity(&self) -> (n: usize)
        ensures
            n >= self.bytes().len(),
    {
        vec_capacity(&self.buffer)
    }

    /// The buffer's contents.
    pub fn as_vec(&self) -> (v: &Vec<u8>)
        ensures
            v@ == self.bytes(),
    {
        &self.buffer
    }

    /// The buffer's contents, to write into.
    pub fn as_mut_vec(&mut self) -> (v: &mut Vec<u8>)
        ensures
            v@ == old(self).bytes(),
            final(self).bytes() == final(v)@,
    {
        &mut self.buffer
    }

    /// Keep the buffer for good: the pool no longer counts it in use and
    /// never gets it back.
    pub fn into_inner(self, pool: &mut BufferPool) -> (v: Vec<u8>)
        requires
            old(pool)@.stats.in_use > 0,
        ensures
            v@ == self.bytes(),
            final(pool)@ == (PoolView {
                stats: PoolStats { in_use: (old(pool)@.stats.in_use - 1) as usize, ..old(pool)@.stats },
                ..old(pool)@
            }),
    {
        proof {
            use_type_invariant(&*pool);
        }
        pool.stats.in_use = pool.stats.in_use - 1;
        self.buffer
    }
}

impl View for BufferPool {
    type V = PoolView;

    closed spec fn view(&self) -> PoolView {
        PoolView {
            stats: PoolStats { pool_size: self.free_buffers.len(), ..self.stats },
            buffer_size: self.buffer_size,
            max_pool_size: self.max_pool_size,
        }
    }
}

/// The statistics after an acquire: a free buffer is reused when there is
/// one, otherwise one is allocated; one more buffer is in use.
pub open spec fn stats_after_acquire(s: PoolStats) -> PoolStats {
    let in_use = (s.in_use + 1) as usize;
    let peak = if s.peak_in_use >= in_use {
        s.peak_in_use
    } else {
        in_use
    };
    if s.pool_size > 0 {
        PoolStats {
            pool_size: (s.pool_size - 1) as usize,
            reuses: (s.reuses + 1) as usize,
            in_use,
            peak_in_use: peak,
            ..s
        }
    } else {
        PoolStats { allocations: (s.allocations + 1) as usize, in_use, peak_in_use: peak, ..s }
    }
}

/// The statistics after a buffer comes back: it is kept when the pool has
/// room, and one fewer buffer is in use.
pub open spec fn stats_after_release(s: PoolStats, max_pool_size: usize) -> PoolStats {
    PoolStats {
        pool_size: if s.pool_size < max_pool_size {
            (s.pool_size + 1) as usize
        } else {
            s.pool_size
        },
        in_use: (s.in_use - 1) as usize,
        ..s
    }
}

/// An acquire keeps every counter in range.
pub open spec fn acquire_fits(s: PoolStats) -> bool {
    &&& s.in_use + 1 <= usize::MAX
    &&& s.pool_size > 0 ==> s.reuses + 1 <= usize::MAX
    &&& s.pool_size == 0 ==> s.allocations + 1 <= usize::MAX
}

impl BufferPool {
    /// The pool never holds more free buffers than its maximum, the peak in
    /// use covers what is in use, and no more buffers are free or in use
    /// than were ever allocated.
    #[verifier::type_invariant]
    spec fn wf(&self) -> bool {
        &&& self.free_buffers.len() <= self.max_pool_size
        &&& self.stats.peak_in_use >= self.stats.in_use
        &&& self.free_buffers.len() + self.stats.in_use <= self.stats.allocations
    }

    /// A pool of buffers of `buffer_size` bytes keeping at most
    /// `max_pool_size` free buffers; it starts empty.
    pub fn new(buffer_size: usize, max_pool_size: usize) -> (p: Self)
        ensures
            p@ == (PoolView {
                stats: PoolStats {
                    pool_size: 0,
                    in_use: 0,
                    peak_in_use: 0,
                    allocations: 0,
                    reuses: 0,
                },
                buffer_size,
                max_pool_size,
            }),
    {
        BufferPool {
            free_buffers: Vec::new(),
            stats: PoolStats::default(),
            buffer_size,
            max_pool_size,
        }
    }

    /// Acquire an empty buffer, reusing a free one when there is one.
    pub fn acquire(&mut self) -> (b: PooledBuffer)
        requires
            acquire_fits(old(self)@.stats),
        ensures
            b.bytes().len() == 0,
            final(self)@ == (PoolView { stats: stats_after_acquire(old(self)@.stats), ..old(self)@ }),
    {
        proof {
            use_type_invariant(&*self);
        }
        let mut stats = self.stats;
        stats.in_use = stats.in_use + 1;
        if stats.in_use > stats.peak_in_use {
            stats.peak_in_use = stats.in_use;
        }
        let mut free: Vec<Vec<u8>> = Vec::new();
        std::mem::swap(&mut free, &mut self.free_buffers);
        let buffer = match free.pop() {
            Some(buf) => {
                let mut buf = buf;
                buf.clear();
                stats.reuses = stats.reuses + 1;
                buf
            },
            None => {
                stats.allocations = stats.allocations + 1;
                Vec::with_capacity(self.buffer_size)
            },
        };
        self.free_buffers = free;
        self.stats = stats;
        PooledBuffer { buffer }
    }

    /// Give a buffer back: it is kept for reuse when the pool has room.
    pub fn release(&mut self, buffer: PooledBuffer)
        requires
            old(self)@.stats.in_use > 0,
        ensures
            final(self)@ == (PoolView {
                stats: stats_after_release(old(self)@.stats, old(self)@.max_pool_size),
                ..old(self)@
            }),
    {
        proof {
            use_type_invariant(&*self);
        }
        self.stats.in_use = self.stats.in_use - 1;
        if self.free_buffers.len() < self.max_pool_size {
            let mut free: Vec<Vec<u8>> = Vec::new();
            std::mem::swap(&mut free, &mut self.free_buffers);
            free.push(buffer.buffer);
            self.free_buffers = free;
        }
    }

    /// The current statistics. In every state of a pool, it keeps at most its
    /// maximum number of free buffers, its peak in use covers what is in use,
    /// and the free buffers and those in use together are at most the
    /// buffers ever allocated.
    pub fn stats(&self) -> (s: PoolStats)
        ensures
            s == self@.stats,
            s.pool_size <= self@.max_pool_size,
            s.in_use <= s.peak_in_use,
            s.pool_size + s.in_use <= s.allocations,
    {
        proof {
            use_type_invariant(self);
        }
        PoolStats { pool_size: self.free_buffers.len(), ..self.stats }
    }

    /// The configured buffer size.
    pub fn buffer_size(&self) -> (n: usize)
        ensures
            n == self@.buffer_size,
    {
        self.buffer_size
    }

    /// The maximum number of free buffers kept.
    pub fn max_pool_size(&self) -> (n: usize)
        ensures
            n == self@.max_pool_size,
    {
        self.max_pool_size
    }

    /// Drop every free buffer; buffers in use are not affected.
    pub fn clear(&mut self)
        ensures
            final(self)@ == (PoolView {
                stats: PoolStats { pool_size: 0, ..old(self)@.stats },
                ..old(self)@
            }),
    {
        proof {
            use_type_invariant(&*self);
        }
        self.free_buffers = Vec::new();
    }

    /// Estimated memory held by the pool's buffers, free and in use.
    pub fn estimated_memory_bytes(&self) -> (n: usize)
        requires
            self@.stats.pool_size + self@.stats.in_use <= usize::MAX,
            (self@.stats.pool_size + self@.stats.in_use) * self@.buffer_size <= usize::MAX,
        ensures
            n == (self@.stats.pool_size + self@.stats.in_use) * self@.buffer_size,
    {
        let stats = self.stats();
        let held = stats.pool_size + stats.in_use;
        held * self.buffer_size
    }
}

impl Default for BufferPool {
    /// 64 KiB buffers, at most ten kept.
    fn default() -> (p: Self)
        ensures
            p@ == (PoolView {
                stats: PoolStats {
                    pool_size: 0,
                    in_use: 0,
                    peak_in_use: 0,
                    allocations: 0,
                    reuses: 0,
                },
                buffer_size: 65536,
                max_pool_size: 10,
            }),
    {
        Self::new(64 * 1024, 10)
    }
}

/// Law: the peak number of buffers in use is never below the number in
/// use, through acquires and releases.
pub proof fn lemma_peak_covers_in_use(s: PoolStats, max_pool_size: usize)
    requires
        s.peak_in_use >= s.in_use,
    ensures
        acquire_fits(s) ==> stats_after_acquire(s).peak_in_use >= stats_after_acquire(s).in_use,
        s.in_use > 0 ==> stats_after_release(s, max_pool_size).peak_in_use >= stats_after_release(
            s,
            max_pool_size,
        ).in_use,
{
}

/// Law: a buffer given back to a pool with room is the one the next acquire
/// reuses: no allocation happens, and the pool and the in-use count are as
/// they were.
pub proof fn lemma_release_then_acquire_reuses(s: PoolStats, max_pool_size: usize)
    requires
        s.in_use > 0,
        s.pool_size < max_pool_size,
        acquire_fits(stats_after_release(s, max_pool_size)),
    ensures
        ({
            let t = stats_after_acquire(stats_after_release(s, max_pool_size));
            &&& t.allocations == s.allocations
            &&& t.reuses == s.reuses + 1
            &&& t.pool_size == s.pool_size
            &&& t.in_use == s.in_use
        }),
{
}

} // verus!
