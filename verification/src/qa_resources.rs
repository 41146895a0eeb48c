//! Allocation accounting for native QA: how allocator events move the call and
//! byte counters, the live byte count and its peak. The global allocator and
//! its atomics stay with the host, which applies these rules.

use vstd::prelude::*;

verus! {

/// Allocator counters as the QA resource trace reports them.
#[derive(Clone, Copy, Debug, Default, PartialEq, Eq, Structural)]
pub struct AllocatorSnapshot {
    pub alloc_calls: u64,
    pub dealloc_calls: u64,
    pub realloc_calls: u64,
    pub allocated_bytes: u64,
    pub deallocated_bytes: u64,
    pub live_bytes: u64,
    pub peak_live_bytes: u64,
}

/// The peak never falls below the live byte count.
pub open spec fn peak_covers_live(counters: AllocatorSnapshot) -> bool {
    counters.live_bytes <= counters.peak_live_bytes
}

/// `value + amount` as the atomic counters add: wrapping around on overflow.
pub open spec fn counter_add(value: u64, amount: u64) -> u64 {
    value.wrapping_add(amount)
}

/// Counters after `bytes` more became live: the live count grows and the peak
/// follows it when it is exceeded.
pub open spec fn with_live_added(c: AllocatorSnapshot, bytes: u64) -> AllocatorSnapshot {
    let live = (c.live_bytes + bytes) as u64;
    AllocatorSnapshot {
        live_bytes: live,
        peak_live_bytes: if live > c.peak_live_bytes {
            live
        } else {
            c.peak_live_bytes
        },
        ..c
    }
}

/// Counters after `bytes` were released: the live count shrinks, never below zero.
pub open spec fn with_live_removed(c: AllocatorSnapshot, bytes: u64) -> AllocatorSnapshot {
    AllocatorSnapshot {
        live_bytes: if c.live_bytes > bytes {
            (c.live_bytes - bytes) as u64
        } else {
            0
        },
        ..c
    }
}

impl AllocatorSnapshot {
    /// `bytes` more are live; the peak records the new high-water mark.
    pub fn add_live(&mut self, bytes: u64)
        requires
            old(self).live_bytes + bytes <= u64::MAX,
        ensures
            *final(self) == with_live_added(*old(self), bytes),
    {
        let live = self.live_bytes + bytes;
        self.live_bytes = live;
        if live > self.peak_live_bytes {
            self.peak_live_bytes = live;
        }
    }

    /// `bytes` are no longer live (saturating at zero).
    pub fn remove_live(&mut self, bytes: u64)
        ensures
            *final(self) == with_live_removed(*old(self), bytes),
    {
        self.live_bytes = self.live_bytes.saturating_sub(bytes);
    }

    /// A successful allocation of `size` bytes.
    pub fn record_alloc(&mut self, size: u64)
        requires
            old(self).live_bytes + size <= u64::MAX,
        ensures
            *final(self) == with_live_added(
                AllocatorSnapshot {
                    alloc_calls: counter_add(old(self).alloc_calls, 1),
                    allocated_bytes: counter_add(old(self).allocated_bytes, size),
                    ..*old(self)
                },
                size,
            ),
    {
        self.alloc_calls = self.alloc_calls.wrapping_add(1);
        self.allocated_bytes = self.allocated_bytes.wrapping_add(size);
        self.add_live(size);
    }

    /// A deallocation of `size` bytes.
    pub fn record_dealloc(&mut self, size: u64)
        ensures
            *final(self) == with_live_removed(
                AllocatorSnapshot {
                    dealloc_calls: counter_add(old(self).dealloc_calls, 1),
                    deallocated_bytes: counter_add(old(self).deallocated_bytes, size),
                    ..*old(self)
                },
                size,
            ),
    {
        self.dealloc_calls = self.dealloc_calls.wrapping_add(1);
        self.deallocated_bytes = self.deallocated_bytes.wrapping_add(size);
        self.remove_live(size);
    }

    /// A successful reallocation from `old_size` to `new_size` bytes: growth
    /// counts as allocated and live, shrinkage as deallocated.
    pub fn record_realloc(&mut self, old_size: u64, new_size: u64)
        requires
            new_size >= old_size ==> old(self).live_bytes + (new_size - old_size) <= u64::MAX,
        ensures
            new_size >= old_size ==> *final(self) == with_live_added(
                AllocatorSnapshot {
                    realloc_calls: counter_add(old(self).realloc_calls, 1),
                    allocated_bytes: counter_add(
                        old(self).allocated_bytes,
                        (new_size - old_size) as u64,
                    ),
                    ..*old(self)
                },
                (new_size - old_size) as u64,
            ),
            new_size < old_size ==> *final(self) == with_live_removed(
                AllocatorSnapshot {
                    realloc_calls: counter_add(old(self).realloc_calls, 1),
                    deallocated_bytes: counter_add(
                        old(self).deallocated_bytes,
                        (old_size - new_size) as u64,
                    ),
                    ..*old(self)
                },
                (old_size - new_size) as u64,
            ),
    {
        self.realloc_calls = self.realloc_calls.wrapping_add(1);
        if new_size >= old_size {
            let growth = new_size - old_size;
            self.allocated_bytes = self.allocated_bytes.wrapping_add(growth);
            self.add_live(growth);
        } else {
            let shrink = old_size - new_size;
            self.deallocated_bytes = self.deallocated_bytes.wrapping_add(shrink);
            self.remove_live(shrink);
        }
    }
}

/// Allocating and releasing never lets the live byte count rise above its
/// recorded peak, and the peak never falls.
pub proof fn law_peak_covers_live(c: AllocatorSnapshot, bytes: u64)
    requires
        peak_covers_live(c),
        c.live_bytes + bytes <= u64::MAX,
    ensures
        peak_covers_live(with_live_added(c, bytes)),
        peak_covers_live(with_live_removed(c, bytes)),
        with_live_added(c, bytes).peak_live_bytes >= c.peak_live_bytes,
        with_live_removed(c, bytes).peak_live_bytes == c.peak_live_bytes,
        with_live_added(c, bytes).peak_live_bytes >= c.live_bytes + bytes,
{
}

/// Memory use of the whole process as the platform reports it.
#[derive(Clone, Copy, Debug, Default, PartialEq, Eq, Structural)]
pub struct ProcessMemorySnapshot {
    pub virtual_bytes: u64,
    pub resident_bytes: u64,
    pub peak_resident_bytes: u64,
    /// The task-ledger footprint, which includes task-owned graphics allocations.
    pub physical_footprint_bytes: u64,
    /// Highest footprint observed by the sampler during this process.
    pub peak_physical_footprint_bytes: u64,
}

/// The highest footprint seen so far after a sample of `footprint`.
pub fn next_peak_footprint(previous_peak: u64, footprint: u64) -> (peak: u64)
    ensures
        peak == (if footprint > previous_peak {
            footprint
        } else {
            previous_peak
        }),
{
    if footprint > previous_peak {
        footprint
    } else {
        previous_peak
    }
}

} // verus!
