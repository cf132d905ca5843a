//! Profiling hooks. Without a profiler compiled in they do nothing: an
//! operation runs as it is and no profiling data is collected.

use vstd::prelude::*;

verus! {

/// Run an operation under a named profiling scope.
pub fn profile_operation<T, F: FnOnce() -> T>(name: &str, f: F) -> (r: T)
    requires
        f.requires(()),
    ensures
        f.ensures((), r),
{
    f()
}

/// Turn profiling on; without a profiler there is nothing to do.
pub fn init_profiling() {
}

/// The profiling frames collected: none without a profiler.
pub fn get_profiling_data() -> (frames: Vec<()>)
    ensures
        frames@.len() == 0,
{
    Vec::new()
}

} // verus!
