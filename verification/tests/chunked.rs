use ring_arena::{Chunk, RingArena};

#[test]
fn fresh_arena_has_one_empty_chunk() {
    let a = RingArena::new(4);
    assert_eq!(a.chunk_count(), 1);
    assert_eq!(a.fill_level(), 0);
    assert!(!a.has_outstanding_handles());
}

#[test]
fn chunk_reports_its_capacity() {
    let c = Chunk::new(7);
    assert_eq!(c.capacity(), 7);
    let empty = Chunk::new(0);
    assert_eq!(empty.capacity(), 0);
}

#[test]
fn ring_placement_advances_cursor() {
    let mut a = RingArena::new(4);
    let h1 = a.allocate(1);
    assert!(!h1.is_boxed());
    assert_eq!(h1.len(), 1);
    assert_eq!(h1.region_start(), Some(0));
    assert_eq!(a.fill_level(), 1);
    let h2 = a.allocate(3);
    assert!(!h2.is_boxed());
    assert_eq!(h2.len(), 3);
    assert_eq!(h2.region_start(), Some(1));
    assert_eq!(a.fill_level(), 4);
    assert_eq!(a.chunk_count(), 1);
}

#[test]
fn zero_and_oversized_requests_are_heap_backed() {
    let mut a = RingArena::new(4);
    let h0 = a.allocate(0);
    assert!(h0.is_boxed());
    assert_eq!(h0.len(), 0);
    assert_eq!(h0.region_start(), None);
    let h5 = a.allocate(5);
    assert!(h5.is_boxed());
    assert_eq!(h5.len(), 5);
    // The policy does not depend on how full the chunk is.
    let h3 = a.allocate(3);
    assert!(!h3.is_boxed());
    let h0b = a.allocate(0);
    assert!(h0b.is_boxed());
    let h5b = a.allocate(5);
    assert!(h5b.is_boxed());
    // Heap fallbacks never touched the ring.
    assert_eq!(a.chunk_count(), 1);
    assert_eq!(a.fill_level(), 3);
}

#[test]
fn sizes_match_requests_exactly() {
    let mut a = RingArena::new(8);
    for want in [1usize, 2, 3, 8, 9, 0, 100] {
        let h = a.allocate(want);
        assert_eq!(h.len(), want);
    }
}

#[test]
fn rotation_reuses_chunk_with_no_live_handles() {
    let mut a = RingArena::new(4);
    let h = a.allocate(4);
    assert!(!h.is_boxed());
    assert_eq!(h.region_start(), Some(0));
    drop(h);
    // The front chunk is exhausted; after rotation its token reports no
    // live handles, so the same chunk is reused.
    let h2 = a.allocate(2);
    assert!(!h2.is_boxed());
    assert_eq!(h2.region_start(), Some(0));
    assert_eq!(a.chunk_count(), 1);
    assert_eq!(a.fill_level(), 2);
}

#[test]
fn rotation_grows_ring_when_chunk_still_live() {
    let mut a = RingArena::new(4);
    let h = a.allocate(4);
    // The front chunk is exhausted and its handle is still alive: a new
    // chunk is created rather than blocking or failing.
    let h2 = a.allocate(2);
    assert!(!h2.is_boxed());
    assert_eq!(h2.region_start(), Some(0));
    assert_eq!(a.chunk_count(), 2);
    assert_eq!(a.fill_level(), 2);
    drop(h);
    drop(h2);
}

#[test]
fn partially_filled_chunk_rotates_when_short_of_space() {
    let mut a = RingArena::new(4);
    let h1 = a.allocate(3);
    // One slot remains but two are needed: rotate, and grow because the
    // first handle is still live.
    let h2 = a.allocate(2);
    assert!(!h2.is_boxed());
    assert_eq!(h2.region_start(), Some(0));
    assert_eq!(a.chunk_count(), 2);
    drop(h1);
    drop(h2);
}

#[test]
fn ring_cycles_through_freed_chunks() {
    let mut a = RingArena::new(2);
    let h1 = a.allocate(2);
    let h2 = a.allocate(2);
    assert_eq!(a.chunk_count(), 2);
    drop(h1);
    // The first chunk was freed in the meantime; the next rotation finds
    // its token unique and reuses it instead of growing further.
    let h3 = a.allocate(2);
    assert_eq!(a.chunk_count(), 2);
    assert!(!h3.is_boxed());
    drop(h2);
    drop(h3);
}

#[test]
fn outstanding_handles_are_reported() {
    let mut a = RingArena::new(4);
    assert!(!a.has_outstanding_handles());
    let h = a.allocate(2);
    assert!(a.has_outstanding_handles());
    drop(h);
    assert!(!a.has_outstanding_handles());
}

#[test]
fn arena_drops_cleanly_after_handles_released() {
    let mut a = RingArena::new(4);
    let h1 = a.allocate(2);
    let h2 = a.allocate(2);
    drop(h1);
    drop(h2);
    assert!(!a.has_outstanding_handles());
    drop(a);
}

#[test]
fn heap_backed_handles_do_not_hold_the_ring() {
    let mut a = RingArena::new(4);
    let hb = a.allocate(40);
    assert!(hb.is_boxed());
    // A heap fallback bypasses ring bookkeeping entirely, so it does not
    // keep any chunk alive.
    assert!(!a.has_outstanding_handles());
    drop(hb);
}
