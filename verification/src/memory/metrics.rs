//! Memory allocation and usage tracking, globally and per component.
//!
//! The global counters behave as the atomic counters they model: counts and
//! lifetime totals wrap around, and so does the current usage when more is
//! released than is held. Per-component counters do not wrap.

use vstd::prelude::*;
use crate::strmap::{lemma_lookup_update, lookup, update, StrMap};

verus! {

/// Metrics for a specific component.
#[derive(Debug, Clone, Copy, PartialEq, Eq, Structural)]
pub struct ComponentMetrics {
    /// Number of allocations.
    pub allocations: usize,
    /// Number of deallocations.
    pub deallocations: usize,
    /// Current memory usage in bytes.
    pub current_bytes: u64,
    /// Peak memory usage in bytes.
    pub peak_bytes: u64,
    /// Total bytes allocated (lifetime).
    pub total_allocated_bytes: u64,
    /// Total bytes deallocated (lifetime).
    pub total_deallocated_bytes: u64,
}

/// Metrics of a component not seen yet.
pub open spec fn zero_component() -> ComponentMetrics {
    ComponentMetrics {
        allocations: 0,
        deallocations: 0,
        current_bytes: 0,
        peak_bytes: 0,
        total_allocated_bytes: 0,
        total_deallocated_bytes: 0,
    }
}

impl Default for ComponentMetrics {
    fn default() -> (c: Self)
        ensures
            c == zero_component(),
    {
        ComponentMetrics {
            allocations: 0,
            deallocations: 0,
            current_bytes: 0,
            peak_bytes: 0,
            total_allocated_bytes: 0,
            total_deallocated_bytes: 0,
        }
    }
}

/// The larger of two byte counts.
pub open spec fn max_u64(a: u64, b: u64) -> u64 {
    if a >= b {
        a
    } else {
        b
    }
}

/// A component's metrics after an allocation of `bytes`.
pub open spec fn component_after_allocation(c: ComponentMetrics, bytes: u64) -> ComponentMetrics {
    let current = (c.current_bytes + bytes) as u64;
    ComponentMetrics {
        allocations: (c.allocations + 1) as usize,
        current_bytes: current,
        total_allocated_bytes: (c.total_allocated_bytes + bytes) as u64,
        peak_bytes: max_u64(c.peak_bytes, current),
        ..c
    }
}

/// A component's metrics after a deallocation of `bytes`; the current usage
/// does not go below zero.
pub open spec fn component_after_deallocation(c: ComponentMetrics, bytes: u64) -> ComponentMetrics {
    ComponentMetrics {
        deallocations: (c.deallocations + 1) as usize,
        current_bytes: if c.current_bytes >= bytes {
            (c.current_bytes - bytes) as u64
        } else {
            0
        },
        total_deallocated_bytes: (c.total_deallocated_bytes + bytes) as u64,
        ..c
    }
}

/// A component's metrics, zero when it was never seen.
pub open spec fn component_or_zero(cs: Seq<(Seq<char>, ComponentMetrics)>, name: Seq<char>) -> ComponentMetrics {
    match lookup(cs, name) {
        Some(c) => c,
        None => zero_component(),
    }
}

impl ComponentMetrics {
    /// The number of live allocations, zero when more were released.
    pub fn live_allocations(&self) -> (n: usize)
        ensures
            n == if self.allocations >= self.deallocations {
                (self.allocations - self.deallocations) as usize
            } else {
                0
            },
    {
        self.allocations.saturating_sub(self.deallocations)
    }
}

/// The state of the memory metrics.
pub struct MemoryView {
    pub allocation_count: usize,
    pub deallocation_count: usize,
    pub current_bytes: u64,
    pub peak_bytes: u64,
    pub total_allocated_bytes: u64,
    pub total_deallocated_bytes: u64,
    pub components: Seq<(Seq<char>, ComponentMetrics)>,
}

/// Memory metrics tracker.
pub struct MemoryMetrics {
    allocation_count: usize,
    deallocation_count: usize,
    current_bytes: u64,
    peak_bytes: u64,
    total_allocated_bytes: u64,
    total_deallocated_bytes: u64,
    components: StrMap<ComponentMetrics>,
}

impl View for MemoryMetrics {
    type V = MemoryView;

    closed spec fn view(&self) -> MemoryView {
        MemoryView {
            allocation_count: self.allocation_count,
            deallocation_count: self.deallocation_count,
            current_bytes: self.current_bytes,
            peak_bytes: self.peak_bytes,
            total_allocated_bytes: self.total_allocated_bytes,
            total_deallocated_bytes: self.total_deallocated_bytes,
            components: self.components.entries(),
        }
    }
}

/// The state of fresh metrics: all zero, no component.
pub open spec fn empty_memory_view() -> MemoryView {
    MemoryView {
        allocation_count: 0,
        deallocation_count: 0,
        current_bytes: 0,
        peak_bytes: 0,
        total_allocated_bytes: 0,
        total_deallocated_bytes: 0,
        components: Seq::empty(),
    }
}

/// The state after an allocation of `bytes` by `component`.
pub open spec fn after_allocation(m: MemoryView, component: Seq<char>, bytes: u64) -> MemoryView {
    let current = (m.current_bytes + bytes) as u64;
    MemoryView {
        allocation_count: vstd::wrapping::usize_specs::wrapping_add(m.allocation_count, 1),
        total_allocated_bytes: vstd::wrapping::u64_specs::wrapping_add(m.total_allocated_bytes, bytes),
        current_bytes: current,
        peak_bytes: max_u64(m.peak_bytes, current),
        components: update(
            m.components,
            component,
            component_after_allocation(component_or_zero(m.components, component), bytes),
        ),
        ..m
    }
}

/// The state after a deallocation of `bytes` by `component`: the global
/// usage wraps as an atomic counter does; a component never seen is left
/// untracked.
pub open spec fn after_deallocation(m: MemoryView, component: Seq<char>, bytes: u64) -> MemoryView {
    MemoryView {
        deallocation_count: vstd::wrapping::usize_specs::wrapping_add(m.deallocation_count, 1),
        total_deallocated_bytes: vstd::wrapping::u64_specs::wrapping_add(
            m.total_deallocated_bytes,
            bytes,
        ),
        current_bytes: vstd::wrapping::u64_specs::wrapping_sub(m.current_bytes, bytes),
        components: match lookup(m.components, component) {
            Some(c) => update(m.components, component, component_after_deallocation(c, bytes)),
            None => m.components,
        },
        ..m
    }
}

/// Whether an allocation of `bytes` by `component` keeps every counter that
/// does not wrap in range.
pub open spec fn allocation_fits(m: MemoryView, component: Seq<char>, bytes: u64) -> bool {
    let c = component_or_zero(m.components, component);
    &&& m.current_bytes + bytes <= u64::MAX
    &&& c.allocations + 1 <= usize::MAX
    &&& c.current_bytes + bytes <= u64::MAX
    &&& c.total_allocated_bytes + bytes <= u64::MAX
}

/// Whether a deallocation of `bytes` by `component` keeps every counter that
/// does not wrap in range.
pub open spec fn deallocation_fits(m: MemoryView, component: Seq<char>, bytes: u64) -> bool {
    match lookup(m.components, component) {
        Some(c) => c.deallocations + 1 <= usize::MAX && c.total_deallocated_bytes + bytes
            <= u64::MAX,
        None => true,
    }
}

/// Snapshot of memory metrics at a point in time.
pub struct MemorySnapshot {
    /// Total allocations.
    pub allocation_count: usize,
    /// Total deallocations.
    pub deallocation_count: usize,
    /// Current memory usage in bytes.
    pub current_bytes: u64,
    /// Peak memory usage in bytes.
    pub peak_bytes: u64,
    /// Total bytes allocated (lifetime).
    pub total_allocated_bytes: u64,
    /// Total bytes deallocated (lifetime).
    pub total_deallocated_bytes: u64,
    /// Per-component metrics.
    pub component_metrics: StrMap<ComponentMetrics>,
}

impl MemorySnapshot {
    /// The number of live allocations, zero when more were released.
    pub fn live_allocations(&self) -> (n: usize)
        ensures
            n == if self.allocation_count >= self.deallocation_count {
                (self.allocation_count - self.deallocation_count) as usize
            } else {
                0
            },
    {
        self.allocation_count.saturating_sub(self.deallocation_count)
    }
}

impl MemoryMetrics {
    /// New metrics: all counters zero, no component.
    pub fn new() -> (m: Self)
        ensures
            m@ == empty_memory_view(),
            consistent(m@),
    {
        proof {
            lemma_fresh_metrics_sound();
        }
        MemoryMetrics {
            allocation_count: 0,
            deallocation_count: 0,
            current_bytes: 0,
            peak_bytes: 0,
            total_allocated_bytes: 0,
            total_deallocated_bytes: 0,
            components: StrMap::new(),
        }
    }

    /// Record an allocation of `bytes` by `component`.
    pub fn record_allocation(&mut self, component: &str, bytes: u64)
        requires
            allocation_fits(old(self)@, component@, bytes),
        ensures
            final(self)@ == after_allocation(old(self)@, component@, bytes),
            final(self)@.peak_bytes >= old(self)@.peak_bytes,
            consistent(old(self)@) && old(self)@.total_allocated_bytes + bytes <= u64::MAX
                ==> consistent(final(self)@),
    {
        proof {
            lemma_allocation_sound(old(self)@, component@, bytes);
        }
        self.allocation_count = self.allocation_count.wrapping_add(1);
        self.total_allocated_bytes = self.total_allocated_bytes.wrapping_add(bytes);
        let current = self.current_bytes + bytes;
        self.current_bytes = current;
        if current > self.peak_bytes {
            self.peak_bytes = current;
        }
        let old_entry = match self.components.get(component) {
            Some(c) => *c,
            None => ComponentMetrics::default(),
        };
        let entry_current = old_entry.current_bytes + bytes;
        let entry = ComponentMetrics {
            allocations: old_entry.allocations + 1,
            current_bytes: entry_current,
            total_allocated_bytes: old_entry.total_allocated_bytes + bytes,
            peak_bytes: if old_entry.peak_bytes >= entry_current {
                old_entry.peak_bytes
            } else {
                entry_current
            },
            ..old_entry
        };
        self.components.insert(component.to_owned(), entry);
    }

    /// Record a deallocation of `bytes` by `component`.
    pub fn record_deallocation(&mut self, component: &str, bytes: u64)
        requires
            deallocation_fits(old(self)@, component@, bytes),
        ensures
            final(self)@ == after_deallocation(old(self)@, component@, bytes),
            final(self)@.peak_bytes == old(self)@.peak_bytes,
            consistent(old(self)@) && bytes <= old(self)@.current_bytes ==> consistent(
                final(self)@,
            ),
    {
        proof {
            lemma_deallocation_sound(old(self)@, component@, bytes);
        }
        self.deallocation_count = self.deallocation_count.wrapping_add(1);
        self.total_deallocated_bytes = self.total_deallocated_bytes.wrapping_add(bytes);
        self.current_bytes = self.current_bytes.wrapping_sub(bytes);
        match self.components.get(component) {
            Some(c) => {
                let old_entry = *c;
                let entry = ComponentMetrics {
                    deallocations: old_entry.deallocations + 1,
                    current_bytes: old_entry.current_bytes.saturating_sub(bytes),
                    total_deallocated_bytes: old_entry.total_deallocated_bytes + bytes,
                    ..old_entry
                };
                self.components.insert(component.to_owned(), entry);
            },
            None => {},
        }
    }

    /// The total number of allocations.
    pub fn allocation_count(&self) -> (n: usize)
        ensures
            n == self@.allocation_count,
    {
        self.allocation_count
    }

    /// The total number of deallocations.
    pub fn deallocation_count(&self) -> (n: usize)
        ensures
            n == self@.deallocation_count,
    {
        self.deallocation_count
    }

    /// The current memory usage in bytes.
    pub fn current_bytes(&self) -> (n: u64)
        ensures
            n == self@.current_bytes,
    {
        self.current_bytes
    }

    /// The peak memory usage in bytes.
    pub fn peak_bytes(&self) -> (n: u64)
        ensures
            n == self@.peak_bytes,
    {
        self.peak_bytes
    }

    /// The total bytes allocated (lifetime).
    pub fn total_allocated_bytes(&self) -> (n: u64)
        ensures
            n == self@.total_allocated_bytes,
    {
        self.total_allocated_bytes
    }

    /// The total bytes deallocated (lifetime).
    pub fn total_deallocated_bytes(&self) -> (n: u64)
        ensures
            n == self@.total_deallocated_bytes,
    {
        self.total_deallocated_bytes
    }

    /// The metrics of one component, if it was seen.
    pub fn component_metrics(&self, component: &str) -> (r: Option<ComponentMetrics>)
        ensures
            r == lookup(self@.components, component@),
    {
        match self.components.get(component) {
            Some(c) => Some(*c),
            None => None,
        }
    }

    /// The metrics of every component seen.
    pub fn all_component_metrics(&self) -> (r: StrMap<ComponentMetrics>)
        ensures
            r.entries() == self@.components,
    {
        self.components.copy()
    }

    /// A snapshot of the current metrics.
    pub fn snapshot(&self) -> (s: MemorySnapshot)
        ensures
            s.allocation_count == self@.allocation_count,
            s.deallocation_count == self@.deallocation_count,
            s.current_bytes == self@.current_bytes,
            s.peak_bytes == self@.peak_bytes,
            s.total_allocated_bytes == self@.total_allocated_bytes,
            s.total_deallocated_bytes == self@.total_deallocated_bytes,
            s.component_metrics.entries() == self@.components,
    {
        MemorySnapshot {
            allocation_count: self.allocation_count,
            deallocation_count: self.deallocation_count,
            current_bytes: self.current_bytes,
            peak_bytes: self.peak_bytes,
            total_allocated_bytes: self.total_allocated_bytes,
            total_deallocated_bytes: self.total_deallocated_bytes,
            component_metrics: self.all_component_metrics(),
        }
    }

    /// Reset all counters and forget every component.
    pub fn reset(&mut self)
        ensures
            final(self)@ == empty_memory_view(),
            consistent(final(self)@),
    {
        proof {
            lemma_fresh_metrics_sound();
        }
        self.allocation_count = 0;
        self.deallocation_count = 0;
        self.current_bytes = 0;
        self.peak_bytes = 0;
        self.total_allocated_bytes = 0;
        self.total_deallocated_bytes = 0;
        self.components.clear();
    }
}

impl Default for MemoryMetrics {
    fn default() -> (m: Self)
        ensures
            m@ == empty_memory_view(),
            consistent(m@),
    {
        Self::new()
    }
}

/// The current usage is what was allocated minus what was released, in the
/// wrapping arithmetic of the counters.
pub open spec fn balanced(m: MemoryView) -> bool {
    m.current_bytes == vstd::wrapping::u64_specs::wrapping_sub(
        m.total_allocated_bytes,
        m.total_deallocated_bytes,
    )
}

/// A tracked component's peak is at least its current usage.
pub open spec fn peak_covers(entry: Option<ComponentMetrics>) -> bool {
    match entry {
        Some(c) => c.peak_bytes >= c.current_bytes,
        None => true,
    }
}

/// Every tracked component's peak is at least its current usage.
pub open spec fn component_peaks_cover(cs: Seq<(Seq<char>, ComponentMetrics)>) -> bool {
    forall|n: Seq<char>| #[trigger] peak_covers(lookup(cs, n))
}

/// The metrics are consistent: no more was released than allocated, the
/// usage is what was allocated minus what was released, and the global peak
/// and every component's peak cover their usage.
pub open spec fn consistent(m: MemoryView) -> bool {
    &&& m.total_deallocated_bytes <= m.total_allocated_bytes
    &&& m.current_bytes == m.total_allocated_bytes - m.total_deallocated_bytes
    &&& balanced(m)
    &&& m.peak_bytes >= m.current_bytes
    &&& component_peaks_cover(m.components)
}

/// Law: fresh metrics are balanced, and their peaks cover their usage.
pub proof fn lemma_fresh_metrics_sound()
    ensures
        balanced(empty_memory_view()),
        empty_memory_view().peak_bytes >= empty_memory_view().current_bytes,
        component_peaks_cover(empty_memory_view().components),
{
}

/// Law: an allocation keeps the usage balanced, never lowers the peak,
/// leaves the peak at least the new usage, and keeps every component's peak
/// at least its usage; the component's allocation count goes up by one.
pub proof fn lemma_allocation_sound(m: MemoryView, component: Seq<char>, bytes: u64)
    requires
        allocation_fits(m, component, bytes),
    ensures
        balanced(m) ==> balanced(after_allocation(m, component, bytes)),
        after_allocation(m, component, bytes).peak_bytes >= m.peak_bytes,
        after_allocation(m, component, bytes).peak_bytes >= after_allocation(
            m,
            component,
            bytes,
        ).current_bytes,
        component_peaks_cover(m.components) ==> component_peaks_cover(
            after_allocation(m, component, bytes).components,
        ),
        lookup(after_allocation(m, component, bytes).components, component) matches Some(c)
            && c.allocations == component_or_zero(m.components, component).allocations + 1,
{
    let a = after_allocation(m, component, bytes);
    let c = component_after_allocation(component_or_zero(m.components, component), bytes);
    lemma_lookup_update(m.components, component, c, component);
    if component_peaks_cover(m.components) {
        assert forall|n: Seq<char>| #[trigger] peak_covers(lookup(a.components, n)) by {
            lemma_lookup_update(m.components, component, c, n);
            assert(peak_covers(lookup(m.components, n)));
        }
    }
}

/// Law: a deallocation keeps the usage balanced and leaves the peak as it
/// was; when no more is released than is held, the peak still covers the
/// usage. Every component's peak keeps covering its usage.
pub proof fn lemma_deallocation_sound(m: MemoryView, component: Seq<char>, bytes: u64)
    requires
        deallocation_fits(m, component, bytes),
    ensures
        balanced(m) ==> balanced(after_deallocation(m, component, bytes)),
        after_deallocation(m, component, bytes).peak_bytes == m.peak_bytes,
        m.peak_bytes >= m.current_bytes && bytes <= m.current_bytes ==> after_deallocation(
            m,
            component,
            bytes,
        ).peak_bytes >= after_deallocation(m, component, bytes).current_bytes,
        component_peaks_cover(m.components) ==> component_peaks_cover(
            after_deallocation(m, component, bytes).components,
        ),
{
    let a = after_deallocation(m, component, bytes);
    if component_peaks_cover(m.components) {
        match lookup(m.components, component) {
            Some(c0) => {
                let c = component_after_deallocation(c0, bytes);
                assert(peak_covers(lookup(m.components, component)));
                assert forall|n: Seq<char>| #[trigger] peak_covers(lookup(a.components, n)) by {
                    lemma_lookup_update(m.components, component, c, n);
                    assert(peak_covers(lookup(m.components, n)));
                }
            },
            None => {},
        }
    }
}

/// One recorded event: an allocation or a deallocation of some bytes by a
/// component.
pub enum MemoryEvent {
    Allocation(Seq<char>, u64),
    Deallocation(Seq<char>, u64),
}

/// The state after one event, as `record_allocation` and
/// `record_deallocation` leave it.
pub open spec fn apply_event(m: MemoryView, e: MemoryEvent) -> MemoryView {
    match e {
        MemoryEvent::Allocation(c, b) => after_allocation(m, c, b),
        MemoryEvent::Deallocation(c, b) => after_deallocation(m, c, b),
    }
}

/// The state after a sequence of events, from `m` on.
pub open spec fn replay(m: MemoryView, es: Seq<MemoryEvent>) -> MemoryView
    decreases es.len(),
{
    if es.len() == 0 {
        m
    } else {
        apply_event(replay(m, es.drop_last()), es.last())
    }
}

/// An event that the recording functions accept, that does not push the
/// lifetime allocation total past its range, and that releases no more than
/// is held.
pub open spec fn event_in_range(m: MemoryView, e: MemoryEvent) -> bool {
    match e {
        MemoryEvent::Allocation(c, b) => allocation_fits(m, c, b) && m.total_allocated_bytes + b
            <= u64::MAX,
        MemoryEvent::Deallocation(c, b) => deallocation_fits(m, c, b) && b <= m.current_bytes,
    }
}

/// Every event of the sequence is in range in the state it meets.
pub open spec fn trace_in_range(m: MemoryView, es: Seq<MemoryEvent>) -> bool
    decreases es.len(),
{
    es.len() == 0 || (trace_in_range(m, es.drop_last()) && event_in_range(
        replay(m, es.drop_last()),
        es.last(),
    ))
}

proof fn lemma_event_keeps_consistent(m: MemoryView, e: MemoryEvent)
    requires
        consistent(m),
        event_in_range(m, e),
    ensures
        consistent(apply_event(m, e)),
{
    match e {
        MemoryEvent::Allocation(c, b) => lemma_allocation_sound(m, c, b),
        MemoryEvent::Deallocation(c, b) => lemma_deallocation_sound(m, c, b),
    }
}

/// Law: in every state that fresh metrics reach through recorded events,
/// none of which releases more than is held (nor overflows a counter), the
/// metrics are consistent: the usage is what was allocated minus what was
/// released, and the peak covers the usage, globally and per component.
pub proof fn lemma_replay_consistent(es: Seq<MemoryEvent>)
    requires
        trace_in_range(empty_memory_view(), es),
    ensures
        consistent(replay(empty_memory_view(), es)),
        replay(empty_memory_view(), es).current_bytes == replay(empty_memory_view(), es).total_allocated_bytes
            - replay(empty_memory_view(), es).total_deallocated_bytes,
        replay(empty_memory_view(), es).peak_bytes >= replay(empty_memory_view(), es).current_bytes,
    decreases es.len(),
{
    if es.len() == 0 {
        lemma_fresh_metrics_sound();
    } else {
        lemma_replay_consistent(es.drop_last());
        lemma_event_keeps_consistent(replay(empty_memory_view(), es.drop_last()), es.last());
    }
}

/// Law: no recorded event lowers the peak: along any sequence of events, the
/// peak of an earlier state is at most the peak of a later one.
pub proof fn lemma_replay_peak_monotone(m: MemoryView, es: Seq<MemoryEvent>, i: int)
    requires
        0 <= i <= es.len(),
    ensures
        replay(m, es.take(i)).peak_bytes <= replay(m, es).peak_bytes,
    decreases es.len(),
{
    if i < es.len() {
        let front = es.drop_last();
        assert(front.take(i) =~= es.take(i));
        lemma_replay_peak_monotone(m, front, i);
        let prev = replay(m, front);
        match es.last() {
            MemoryEvent::Allocation(..) => {},
            MemoryEvent::Deallocation(..) => {},
        }
        assert(replay(m, es).peak_bytes >= prev.peak_bytes);
    } else {
        assert(es.take(i) =~= es);
    }
}

} // verus!
