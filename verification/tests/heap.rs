//! Tests for the region allocator: round trips, exhaustion, alignment and
//! cross-region isolation.

use nrfxlib::heap::RegionAllocator;
use nrfxlib::heap::WORD_SIZE;

#[test]
fn allocate_returns_payload_past_header() {
    let mut a = RegionAllocator::new(0x1000, 0x100);
    let p = a.allocate(10).expect("fits");
    assert_eq!(p, 0x1000 + WORD_SIZE);
}

#[test]
fn allocate_free_allocate_same_address() {
    // Allocator round trip: free restores the free list exactly, so the
    // same request lands on the same address again.
    let mut a = RegionAllocator::new(0x2000, 0x80);
    let p1 = a.allocate(24).expect("fits");
    a.free(p1);
    let p2 = a.allocate(24).expect("fits again");
    assert_eq!(p1, p2);
}

#[test]
fn round_trip_restores_free_bytes() {
    let mut a = RegionAllocator::new(0, 256);
    let before = a.free_bytes();
    let p = a.allocate(100).expect("fits");
    assert!(a.free_bytes() < before);
    a.free(p);
    assert_eq!(a.free_bytes(), before);
}

#[test]
fn round_trip_in_the_middle_coalesces() {
    // Free a block between two live ones: the round trip must restore the
    // state even when merging happens against a shrunken free block.
    let mut a = RegionAllocator::new(0, 256);
    let p1 = a.allocate(16).expect("fits");
    let p2 = a.allocate(16).expect("fits");
    let p3 = a.allocate(16).expect("fits");
    let free_before = a.free_bytes();
    a.free(p2);
    let p2b = a.allocate(16).expect("fits");
    assert_eq!(p2, p2b);
    assert_eq!(a.free_bytes(), free_before);
    a.free(p1);
    a.free(p2b);
    a.free(p3);
    assert_eq!(a.free_bytes(), 256);
}

#[test]
fn exhaustion_returns_none() {
    // A request beyond the remaining capacity is answered with None,
    // never with an overlapping block.
    let mut a = RegionAllocator::new(0, 64);
    assert_eq!(a.allocate(64), None); // 64 + header does not fit
    let p1 = a.allocate(10).expect("fits");
    let p2 = a.allocate(40).expect("fits");
    assert_eq!(a.allocate(10), None);
    assert_ne!(p1, p2);
    a.free(p1);
    a.free(p2);
    assert_eq!(a.free_bytes(), 64);
}

#[test]
fn huge_request_is_refused() {
    let mut a = RegionAllocator::new(0, 1024);
    assert_eq!(a.allocate(usize::MAX), None);
    assert_eq!(a.allocate(usize::MAX - 4), None);
    assert_eq!(a.free_bytes(), 1024);
}

#[test]
fn zero_sized_allocation_takes_a_block() {
    let mut a = RegionAllocator::new(0, 64);
    let p = a.allocate(0).expect("fits");
    assert_eq!(p, WORD_SIZE);
    assert_eq!(a.free_bytes(), 64 - WORD_SIZE);
    a.free(p);
    assert_eq!(a.free_bytes(), 64);
}

#[test]
fn payloads_are_word_aligned_and_disjoint() {
    let mut a = RegionAllocator::new(0x100, 0x100);
    let mut ptrs: Vec<usize> = Vec::new();
    for req in [1usize, 2, 3, 4, 5, 9, 17] {
        let p = a.allocate(req).expect("fits");
        assert_eq!(p % WORD_SIZE, 0);
        ptrs.push(p);
    }
    ptrs.sort();
    ptrs.dedup();
    assert_eq!(ptrs.len(), 7);
}

#[test]
fn owns_payload_tracks_live_blocks() {
    let mut a = RegionAllocator::new(0, 128);
    let p = a.allocate(8).expect("fits");
    assert!(a.owns_payload(p));
    a.free(p);
    assert!(!a.owns_payload(p));
}

#[test]
fn cross_region_pointers_are_never_recognised() {
    // Cross-region isolation: a pointer from the general region is no
    // live payload of the transmit region's allocator.
    let mut general = RegionAllocator::new(0x1000, 0x200);
    let mut tx = RegionAllocator::new(0x8000, 0x200);
    let p_gen = general.allocate(32).expect("fits");
    let p_tx = tx.allocate(32).expect("fits");
    assert!(general.owns_payload(p_gen));
    assert!(tx.owns_payload(p_tx));
    assert!(!tx.owns_payload(p_gen));
    assert!(!general.owns_payload(p_tx));
}

#[test]
fn first_fit_prefers_earliest_hole() {
    let mut a = RegionAllocator::new(0, 256);
    let p1 = a.allocate(16).expect("fits");
    let _p2 = a.allocate(16).expect("fits");
    a.free(p1);
    // The freed front hole fits the next small request first.
    let p3 = a.allocate(8).expect("fits");
    assert_eq!(p3, p1);
}
