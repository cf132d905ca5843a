//! Memory bookkeeping: allocation metrics, buffer pooling and string interning.

pub mod interner;
pub mod metrics;
pub mod pool;

pub use interner::{InternerStats, StringInterner};
pub use metrics::{ComponentMetrics, MemoryMetrics, MemorySnapshot};
pub use pool::{BufferPool, PoolStats, PooledBuffer};
