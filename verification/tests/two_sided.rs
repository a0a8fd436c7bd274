use ring_arena::TwoSidedArena;

#[test]
fn two_sided_scenario_capacity_four() {
    let mut a = TwoSidedArena::new(4);
    let h1 = a.allocate(1);
    assert!(!h1.is_boxed());
    assert_eq!(h1.region_start(), Some(0));
    assert_eq!(h1.len(), 1);
    let h2 = a.allocate(3);
    assert!(!h2.is_boxed());
    assert_eq!(h2.region_start(), Some(1));
    assert_eq!(h2.len(), 3);
    // No room on either side: heap fallback.
    let h3 = a.allocate(2);
    assert!(h3.is_boxed());
    assert_eq!(h3.len(), 2);
    h1.release();
    h2.release();
    h3.release();
    // After reclamation the whole buffer is free again.
    let h4 = a.allocate(4);
    assert!(!h4.is_boxed());
    assert_eq!(h4.region_start(), Some(0));
    assert_eq!(h4.len(), 4);
    h4.release();
}

#[test]
fn left_edge_reused_after_front_release() {
    let mut a = TwoSidedArena::new(4);
    let h1 = a.allocate(2);
    assert_eq!(h1.region_start(), Some(0));
    let h2 = a.allocate(2);
    assert_eq!(h2.region_start(), Some(2));
    h1.release();
    // The right side is saturated; the freed space at the left edge is
    // reused.
    let h3 = a.allocate(1);
    assert!(!h3.is_boxed());
    assert_eq!(h3.region_start(), Some(0));
    assert_eq!(a.active_regions(), 2);
    h2.release();
    h3.release();
}

#[test]
fn two_sided_always_tries_ring_first() {
    let mut a = TwoSidedArena::new(4);
    // Unlike the chunked ring, the single-buffer ring attempts ring
    // placement regardless of size: a zero-length request is ring-backed.
    let h0 = a.allocate(0);
    assert!(!h0.is_boxed());
    assert_eq!(h0.len(), 0);
    assert_eq!(h0.region_start(), Some(0));
    let big = a.allocate(5);
    assert!(big.is_boxed());
    assert_eq!(big.len(), 5);
    h0.release();
    big.release();
}

#[test]
fn release_is_observed_lazily() {
    let mut a = TwoSidedArena::new(4);
    let h1 = a.allocate(2);
    h1.release();
    // The signal sits in the channel until the next allocation drains it.
    assert_eq!(a.active_regions(), 1);
    let h2 = a.allocate(1);
    assert_eq!(a.active_regions(), 1);
    assert_eq!(h2.region_start(), Some(0));
    h2.release();
}

#[test]
fn two_sided_outstanding_handles() {
    let mut a = TwoSidedArena::new(4);
    assert!(!a.has_outstanding_handles());
    let h = a.allocate(2);
    assert!(a.has_outstanding_handles());
    h.release();
    assert!(!a.has_outstanding_handles());
    // A heap fallback owns its buffer independently and never counts as
    // outstanding in the ring.
    let hb = a.allocate(9);
    assert!(!a.has_outstanding_handles());
    hb.release();
}

#[test]
fn zero_capacity_buffer_still_serves_requests() {
    let mut a = TwoSidedArena::new(0);
    // A zero-length request still fits the (empty) right edge.
    let h0 = a.allocate(0);
    assert!(!h0.is_boxed());
    // Anything larger fits on neither side.
    let h1 = a.allocate(1);
    assert!(h1.is_boxed());
    assert_eq!(h1.len(), 1);
    h0.release();
    h1.release();
}

#[test]
fn fragmentation_is_not_coalesced() {
    let mut a = TwoSidedArena::new(4);
    let h1 = a.allocate(1);
    let h2 = a.allocate(1);
    let h3 = a.allocate(2);
    // Free the middle region only: neither edge gains room for 2 slots.
    h2.release();
    let h4 = a.allocate(2);
    assert!(h4.is_boxed());
    h1.release();
    h3.release();
    h4.release();
}
