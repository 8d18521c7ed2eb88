//! Boot-stage benchmark bookkeeping.
//!
//! Reading the time-stamp counter and probing the raw stack region are the
//! platform's work and stay with the caller; the decisions on the observed
//! values — stack high-water detection and heap usage accounting — live
//! here, verified.

use crate::bytes::{le64, read_le_u64};
use crate::layout::RuntimeMemoryLayout;
use vstd::prelude::*;

verus! {

/// Scans the stack probe buffer as consecutive little-endian 64-bit words
/// and reports the depth of the stack's high-water mark: the distance from
/// the buffer's end to the first word that no longer holds the fill
/// pattern `expected_value`.  Returns `None` when every whole word still
/// holds the pattern.
#[verifier::loop_isolation(false)]
pub fn detect_stack_in_buffer(buffer: &[u8], expected_value: u64) -> (r: Option<usize>)
    ensures
        match r {
            Some(v) => exists|i: int|
                (
                {
                    &&& 0 <= i < buffer@.len() / 8
                    &&& #[trigger] le64(buffer@, 8 * i) != expected_value
                    &&& v == buffer@.len() - 8 * i
                    &&& forall|j: int| 0 <= j < i ==> #[trigger] le64(buffer@, 8 * j) == expected_value
                }
                ),
            None => forall|i: int|
                0 <= i < buffer@.len() / 8 ==> #[trigger] le64(buffer@, 8 * i) == expected_value,
        },
{
    let words = buffer.len() / 8;
    proof {
        vstd::arithmetic::div_mod::lemma_fundamental_div_mod(buffer@.len() as int, 8);
    }
    let mut i: usize = 0;
    while i < words
        invariant
            i <= words,
            forall|j: int| 0 <= j < i ==> #[trigger] le64(buffer@, 8 * j) == expected_value,
        decreases words - i,
    {
        let value = read_le_u64(buffer, i * 8);
        if value != expected_value {
            assert(le64(buffer@, 8 * (i as int)) != expected_value);
            return Some(buffer.len() - i * 8);
        }
        i = i + 1;
    }
    None
}

/// Heap usage accounting: the bytes currently allocated and the high-water
/// mark, as the allocator reports allocations and deallocations.
pub struct HeapUsage {
    /// Bytes currently allocated.
    pub used_heap: usize,
    /// Greatest value `used_heap` has reached.
    pub max_heap: usize,
}

impl HeapUsage {
    /// The high-water mark never lies below the current usage.
    pub open spec fn wf(&self) -> bool {
        self.used_heap <= self.max_heap
    }

    /// Fresh accounting: nothing allocated yet.
    pub fn new() -> (r: Self)
        ensures
            r.wf(),
            r.used_heap == 0,
            r.max_heap == 0,
    {
        HeapUsage { used_heap: 0, max_heap: 0 }
    }

    /// Records a successful allocation of `size` bytes.
    pub fn on_alloc(&mut self, size: usize)
        requires
            old(self).wf(),
            old(self).used_heap + size <= usize::MAX,
        ensures
            final(self).wf(),
            final(self).used_heap == old(self).used_heap + size,
            final(self).max_heap == if old(self).max_heap < old(self).used_heap + size {
                old(self).used_heap + size
            } else {
                old(self).max_heap as int
            },
    {
        self.used_heap = self.used_heap + size;
        if self.max_heap < self.used_heap {
            self.max_heap = self.used_heap;
        }
    }

    /// Records a deallocation of `size` bytes.
    pub fn on_dealloc(&mut self, size: usize)
        requires
            old(self).wf(),
            size <= old(self).used_heap,
        ensures
            final(self).wf(),
            final(self).used_heap == old(self).used_heap - size,
            final(self).max_heap == old(self).max_heap,
    {
        self.used_heap = self.used_heap - size;
    }
}

/// Benchmark bookkeeping for one boot stage: its name, the time-stamp
/// bounds the platform reads, and the measured maxima.
pub struct BenchmarkContext {
    /// Name of the stage being measured.
    pub name: &'static str,
    /// Time-stamp counter at the start of the stage.
    pub start_timestamp: u64,
    /// Time-stamp counter at the end of the stage.
    pub end_timestamp: u64,
    /// Deepest stack use detected.
    pub max_stack: usize,
    /// Greatest heap use recorded.
    pub max_heap: usize,
}

impl BenchmarkContext {
    /// A fresh context for the stage `name`: every measurement zeroed.
    /// The memory layout tells the platform where the probed regions lie;
    /// the bookkeeping itself starts from nothing.
    #[allow(unused_variables)]
    pub fn new(memory_layout: RuntimeMemoryLayout, name: &'static str) -> (r: Self)
        ensures
            r.name == name,
            r.start_timestamp == 0,
            r.end_timestamp == 0,
            r.max_stack == 0,
            r.max_heap == 0,
    {
        BenchmarkContext { name, start_timestamp: 0, end_timestamp: 0, max_stack: 0, max_heap: 0 }
    }
}

} // verus!
