use lib::qa_resources::{AllocatorSnapshot, next_peak_footprint};
use lib::system_resources::{GIB, detect, platform_capacity};

#[test]
fn allocator_counters_track_live_bytes_and_their_peak() {
    let mut counters = AllocatorSnapshot::default();
    counters.record_alloc(100);
    counters.record_alloc(50);
    assert_eq!(counters.alloc_calls, 2);
    assert_eq!(counters.allocated_bytes, 150);
    assert_eq!(counters.live_bytes, 150);
    assert_eq!(counters.peak_live_bytes, 150);
    counters.record_dealloc(100);
    assert_eq!(counters.live_bytes, 50);
    assert_eq!(counters.peak_live_bytes, 150);
    counters.record_realloc(50, 80);
    assert_eq!(counters.allocated_bytes, 180);
    assert_eq!(counters.live_bytes, 80);
    counters.record_realloc(80, 20);
    assert_eq!(counters.deallocated_bytes, 160);
    assert_eq!(counters.live_bytes, 20);
    assert_eq!(counters.realloc_calls, 2);
    counters.remove_live(1_000);
    assert_eq!(counters.live_bytes, 0);
    assert_eq!(counters.peak_live_bytes, 150);
}

#[test]
fn peak_footprint_only_grows() {
    assert_eq!(next_peak_footprint(10, 5), 10);
    assert_eq!(next_peak_footprint(10, 50), 50);
}

#[test]
fn detected_capacity_is_always_usable() {
    let resources = detect(Some(8), platform_capacity());
    assert!(resources.physical_memory_bytes >= 2 * GIB);
    assert!(resources.logical_cpus >= 1);
    assert_eq!(detect(None, platform_capacity()).logical_cpus, 1);
    assert_eq!(detect(Some(1_000_000), platform_capacity()).logical_cpus, u16::MAX);
    assert_eq!(platform_capacity(), (8 * GIB, false));
}
