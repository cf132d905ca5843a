use maproom::memory::pool::BufferPool;

#[test]
fn test_pool_creation() {
    let pool = BufferPool::new(1024, 5);
    assert_eq!(pool.buffer_size(), 1024);
    assert_eq!(pool.max_pool_size(), 5);

    let stats = pool.stats();
    assert_eq!(stats.pool_size, 0);
    assert_eq!(stats.in_use, 0);
}

#[test]
fn test_acquire_and_release() {
    let mut pool = BufferPool::new(1024, 5);

    {
        let buffer = pool.acquire();
        assert_eq!(buffer.capacity(), 1024);

        let stats = pool.stats();
        assert_eq!(stats.in_use, 1);
        assert_eq!(stats.allocations, 1);
        pool.release(buffer);
    }

    let stats = pool.stats();
    assert_eq!(stats.in_use, 0);
    assert_eq!(stats.pool_size, 1);
}

#[test]
fn test_buffer_reuse() {
    let mut pool = BufferPool::new(1024, 5);

    let buffer = pool.acquire();
    pool.release(buffer);

    let buffer = pool.acquire();
    pool.release(buffer);

    let stats = pool.stats();
    assert_eq!(stats.allocations, 1);
    assert_eq!(stats.reuses, 1);
    assert_eq!(reuse_rate(&stats), 0.5);
}

#[test]
fn test_max_pool_size() {
    let mut pool = BufferPool::new(1024, 2);

    let buffers: Vec<_> = (0..5).map(|_| pool.acquire()).collect();

    for buffer in buffers {
        pool.release(buffer);
    }

    let stats = pool.stats();
    assert_eq!(stats.pool_size, 2);
}

#[test]
fn test_concurrent_buffers() {
    let mut pool = BufferPool::new(1024, 5);

    let b1 = pool.acquire();
    let b2 = pool.acquire();
    let b3 = pool.acquire();

    let stats = pool.stats();
    assert_eq!(stats.in_use, 3);
    assert_eq!(stats.peak_in_use, 3);

    pool.release(b1);
    pool.release(b2);
    pool.release(b3);

    let stats = pool.stats();
    assert_eq!(stats.in_use, 0);
    assert_eq!(stats.pool_size, 3);
    assert_eq!(stats.peak_in_use, 3);
}

#[test]
fn test_buffer_usage() {
    let mut pool = BufferPool::new(1024, 5);
    let mut buffer = pool.acquire();

    buffer.as_mut_vec().extend_from_slice(b"hello");
    assert_eq!(buffer.as_vec().len(), 5);
    assert_eq!(&buffer.as_vec()[..], b"hello");

    buffer.as_mut_vec().clear();
    assert_eq!(buffer.as_vec().len(), 0);
    pool.release(buffer);
}

#[test]
fn test_into_inner() {
    let mut pool = BufferPool::new(1024, 5);
    let mut buffer = pool.acquire();

    buffer.as_mut_vec().extend_from_slice(b"data");

    let stats = pool.stats();
    assert_eq!(stats.in_use, 1);

    let inner = buffer.into_inner(&mut pool);
    assert_eq!(&inner[..], b"data");

    let stats = pool.stats();
    assert_eq!(stats.pool_size, 0);
    assert_eq!(stats.in_use, 0);
}

#[test]
fn test_clear_pool() {
    let mut pool = BufferPool::new(1024, 5);

    let buffers: Vec<_> = (0..3).map(|_| pool.acquire()).collect();
    for buffer in buffers {
        pool.release(buffer);
    }

    let stats = pool.stats();
    assert_eq!(stats.pool_size, 3);

    pool.clear();

    let stats = pool.stats();
    assert_eq!(stats.pool_size, 0);
}

#[test]
fn test_estimated_memory() {
    let mut pool = BufferPool::new(1024, 5);

    let _b1 = pool.acquire();
    let _b2 = pool.acquire();

    let memory = pool.estimated_memory_bytes();
    assert_eq!(memory, 2 * 1024);
}

#[test]
fn test_default_pool() {
    let pool = BufferPool::default();
    assert_eq!(pool.buffer_size(), 64 * 1024);
    assert_eq!(pool.max_pool_size(), 10);
}

#[test]
fn pool_test_peak_tracking() {
    let mut pool = BufferPool::new(1024, 5);

    let b1 = pool.acquire();
    let b2 = pool.acquire();
    let b3 = pool.acquire();

    let stats = pool.stats();
    assert_eq!(stats.peak_in_use, 3);

    pool.release(b1);
    pool.release(b2);

    let stats = pool.stats();
    assert_eq!(stats.in_use, 1);
    assert_eq!(stats.peak_in_use, 3);

    pool.release(b3);

    let stats = pool.stats();
    assert_eq!(stats.in_use, 0);
    assert_eq!(stats.peak_in_use, 3);
}

#[test]
fn test_buffer_cleared_on_acquire() {
    let mut pool = BufferPool::new(1024, 5);

    {
        let mut buffer = pool.acquire();
        buffer.as_mut_vec().extend_from_slice(b"old data");
        pool.release(buffer);
    }

    {
        let buffer = pool.acquire();
        assert_eq!(buffer.as_vec().len(), 0);
        pool.release(buffer);
    }
}

#[test]
fn test_reuse_rate() {
    let mut pool = BufferPool::new(1024, 5);

    let buffers: Vec<_> = (0..5).map(|_| pool.acquire()).collect();
    for buffer in buffers {
        pool.release(buffer);
    }

    let stats = pool.stats();
    assert_eq!(stats.allocations, 5);
    assert_eq!(stats.pool_size, 5);

    let buffers: Vec<_> = (0..5).map(|_| pool.acquire()).collect();
    for buffer in buffers {
        pool.release(buffer);
    }

    let stats = pool.stats();
    assert_eq!(stats.allocations, 5);
    assert_eq!(stats.reuses, 5);
    assert_eq!(reuse_rate(&stats), 0.5);
    assert_eq!(stats.total_acquires(), 10);
}

#[test]
fn test_zero_max_pool_size() {
    let mut pool = BufferPool::new(1024, 0);

    {
        let buffer = pool.acquire();
        pool.release(buffer);
    }

    let stats = pool.stats();
    assert_eq!(stats.pool_size, 0);
    assert_eq!(stats.allocations, 1);
}

/// Share of acquires served from the pool, as a rate between 0 and 1.
fn reuse_rate(stats: &maproom::memory::pool::PoolStats) -> f64 {
    let total = stats.total_acquires();
    if total == 0 {
        0.0
    } else {
        stats.reuses as f64 / total as f64
    }
}
