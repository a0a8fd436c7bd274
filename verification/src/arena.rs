//! The chunked ring arena: a deque of fixed-size storage chunks plus a
//! cursor into the front chunk.
//!
//! The arena does the placement bookkeeping only: it decides where each
//! requested region lives (front chunk, a reused chunk, a brand-new chunk,
//! or an independent heap buffer) and records the regions carved from each
//! chunk. Whether a parked chunk may be reused is learned from its liveness
//! token, which reports whether any handle still holds a clone of it.

use vstd::prelude::*;
use crate::region::{Region, all_end_by, lemma_extend_disjoint, pairwise_disjoint, region_at};
use crate::token::{token_clone, token_is_unique, token_new};
use std::collections::VecDeque;

verus! {

/// One fixed-capacity storage block of the ring.
///
/// The chunk records the regions carved from it since it was last reset;
/// its liveness token tells the arena when no handle addresses it any more.
pub struct Chunk {
    capacity: usize,
    token: triomphe::Arc<()>,
    carved: Ghost<Seq<Region>>,
}

impl Chunk {
    /// The capacity of the chunk, in element slots.
    pub closed spec fn spec_capacity(self) -> int {
        self.capacity as int
    }

    /// The regions carved from this chunk since it was last reset.
    pub closed spec fn regions(self) -> Seq<Region> {
        self.carved@
    }

    /// A fresh chunk of `length` element slots with no regions carved yet
    /// and a fresh liveness token.
    pub fn new(length: usize) -> (c: Chunk)
        ensures
            c.spec_capacity() == length,
            c.regions() == Seq::<Region>::empty(),
    {
        Chunk { capacity: length, token: token_new(), carved: Ghost(Seq::empty()) }
    }

    /// The capacity of the chunk, in element slots.
    pub fn capacity(&self) -> (r: usize)
        ensures
            r == self.spec_capacity(),
    {
        self.capacity
    }
}

/// How a handle addresses its elements.
enum HandleInner {
    /// A region of a ring chunk; the token clone keeps the chunk from being
    /// reused while this handle is alive.
    Ring { token: triomphe::Arc<()>, start: usize, len: usize },
    /// An independent heap buffer of `len` element slots.
    Boxed { len: usize },
}

/// The abstract value of a [`Handle`]: where its region lives.
pub struct HandleView {
    /// True when the handle bypassed the ring (heap fallback).
    pub boxed: bool,
    /// First slot of the region within its chunk; 0 for a boxed handle.
    pub start: int,
    /// Number of addressable element slots.
    pub len: int,
}

/// Capability over one region of a [`RingArena`] (or over an independent
/// heap buffer, when the ring could not take the request).
///
/// Dropping the handle is the release operation: it drops the token clone,
/// and the chunk reports itself free once the last clone is gone.
pub struct Handle {
    inner: HandleInner,
}

impl View for Handle {
    type V = HandleView;

    closed spec fn view(&self) -> HandleView {
        match self.inner {
            HandleInner::Ring { start, len, .. } => HandleView {
                boxed: false,
                start: start as int,
                len: len as int,
            },
            HandleInner::Boxed { len } => HandleView { boxed: true, start: 0, len: len as int },
        }
    }
}

impl Handle {
    /// Whether this handle bypassed the ring and addresses an independent
    /// heap buffer instead.
    pub fn is_boxed(&self) -> (r: bool)
        ensures
            r == self@.boxed,
    {
        match &self.inner {
            HandleInner::Ring { .. } => false,
            HandleInner::Boxed { .. } => true,
        }
    }

    /// The number of element slots the handle addresses.
    pub fn len(&self) -> (r: usize)
        ensures
            r == self@.len,
    {
        match &self.inner {
            HandleInner::Ring { len, .. } => *len,
            HandleInner::Boxed { len } => *len,
        }
    }

    /// The first slot of the handle's region within its chunk, or `None`
    /// for a boxed handle.
    pub fn region_start(&self) -> (r: Option<usize>)
        ensures
            match r {
                Some(s) => !self@.boxed && s == self@.start,
                None => self@.boxed,
            },
    {
        match &self.inner {
            HandleInner::Ring { start, .. } => Some(*start),
            HandleInner::Boxed { .. } => None,
        }
    }
}

/// Arena for short-lived objects: a ring of fixed-size chunks.
pub struct RingArena {
    chunk_length: usize,
    /// All the allocated chunks; the front chunk is the one being filled.
    chunks: VecDeque<Chunk>,
    /// Offset of the first free slot in the front chunk.
    offset: usize,
}

impl RingArena {
    /// The capacity of every chunk of this arena.
    pub closed spec fn chunk_capacity(self) -> int {
        self.chunk_length as int
    }

    /// How many chunks the ring currently owns.
    pub closed spec fn num_chunks(self) -> int {
        self.chunks@.len() as int
    }

    /// The regions carved from chunk `k` (0 is the front chunk) since that
    /// chunk was last reset.
    pub closed spec fn regions_of(self, k: int) -> Seq<Region> {
        self.chunks@[k].regions()
    }

    /// Offset of the first free slot in the front chunk.
    pub closed spec fn fill(self) -> int {
        self.offset as int
    }

    /// Well-formedness: at least one chunk, all chunks of the arena's chunk
    /// capacity, the cursor within the front chunk, and every chunk's carved
    /// regions pairwise disjoint and within the chunk; the front chunk's
    /// regions all lie below the cursor.
    pub closed spec fn wf(self) -> bool {
        &&& self.chunk_length > 0
        &&& self.chunks@.len() >= 1
        &&& self.offset <= self.chunk_length
        &&& forall|k: int|
            0 <= k < self.chunks@.len() ==> (#[trigger] self.chunks@[k]).spec_capacity()
                == self.chunk_length
        &&& forall|k: int|
            0 <= k < self.chunks@.len() ==> pairwise_disjoint(
                (#[trigger] self.chunks@[k]).regions(),
            )
        &&& forall|k: int|
            0 <= k < self.chunks@.len() ==> all_end_by(
                (#[trigger] self.chunks@[k]).regions(),
                self.chunk_length as int,
            )
        &&& all_end_by(self.chunks@[0].regions(), self.offset as int)
    }

    /// The outcome of a placement that found room in the front chunk: the
    /// new region is appended to the front chunk's record at the old cursor
    /// and the cursor advances; no chunk is moved or added.
    pub open spec fn placed_in_front(self, prev: RingArena, length: int) -> bool {
        &&& self.num_chunks() == prev.num_chunks()
        &&& self.fill() == prev.fill() + length
        &&& self.regions_of(0) == prev.regions_of(0).push(region_at(prev.fill(), length))
        &&& forall|k: int| 1 <= k < self.num_chunks() ==> self.regions_of(k) == prev.regions_of(k)
    }

    /// The outcome of rotating the exhausted front chunk to the back and
    /// reusing the next chunk, whose token reported no live handles: its
    /// record is reset and the new region carved at slot 0.
    pub open spec fn placed_after_reuse(self, prev: RingArena, length: int) -> bool {
        &&& self.num_chunks() == prev.num_chunks()
        &&& self.fill() == length
        &&& self.regions_of(0) == seq![region_at(0, length)]
        &&& forall|k: int|
            1 <= k < self.num_chunks() - 1 ==> self.regions_of(k) == prev.regions_of(k + 1)
        &&& self.num_chunks() >= 2 ==> self.regions_of(self.num_chunks() - 1) == prev.regions_of(
            0,
        )
    }

    /// The outcome of rotating the exhausted front chunk to the back while
    /// the next chunk still has live handles: a brand-new chunk is pushed at
    /// the front and the new region carved there at slot 0.
    pub open spec fn placed_after_growth(self, prev: RingArena, length: int) -> bool {
        &&& self.num_chunks() == prev.num_chunks() + 1
        &&& self.fill() == length
        &&& self.regions_of(0) == seq![region_at(0, length)]
        &&& forall|k: int|
            1 <= k < prev.num_chunks() ==> self.regions_of(k) == prev.regions_of(k)
        &&& self.regions_of(prev.num_chunks()) == prev.regions_of(0)
    }

    /// A fresh arena with one empty chunk of `chunk_length` element slots.
    pub fn new(chunk_length: usize) -> (a: RingArena)
        requires
            chunk_length > 0,
        ensures
            a.wf(),
            a.chunk_capacity() == chunk_length,
            a.num_chunks() == 1,
            a.fill() == 0,
            a.regions_of(0) == Seq::<Region>::empty(),
    {
        let first = Chunk::new(chunk_length);
        let mut chunks: VecDeque<Chunk> = VecDeque::new();
        chunks.push_back(first);
        RingArena { chunk_length, chunks, offset: 0 }
    }

    /// Carve a region of `length` slots at the cursor of the front chunk,
    /// which must have room for it.
    fn allocate_unchecked(&mut self, length: usize) -> (h: Handle)
        requires
            old(self).wf(),
            old(self).offset + length <= old(self).chunk_length,
        ensures
            final(self).wf(),
            final(self).chunk_capacity() == old(self).chunk_capacity(),
            h@.boxed == false,
            h@.start == old(self).fill(),
            h@.len == length,
            final(self).placed_in_front(*old(self), length as int),
    {
        let mut front = self.chunks.pop_front().unwrap();
        let token = token_clone(&front.token);
        let start = self.offset;
        let ghost r = Region { start, len: length };
        front.carved = Ghost(front.carved@.push(r));
        self.chunks.push_front(front);
        self.offset = start + length;
        proof {
            lemma_extend_disjoint(
                old(self).chunks@[0].regions(),
                r,
                old(self).offset as int,
            );
            assert forall|k: int| 1 <= k < self.chunks@.len() implies self.chunks@[k]
                == old(self).chunks@[k] by {
            }
        }
        Handle { inner: HandleInner::Ring { token, start, len: length } }
    }

    /// Place a region of `length` element slots and return its handle.
    ///
    /// Zero-length and over-capacity requests are heap-backed and never
    /// touch the ring. Otherwise the region is carved from the front chunk
    /// if it has room; an exhausted front chunk is rotated to the back, and
    /// the next chunk is either reused (when its token reports no live
    /// handles) or a brand-new chunk is grown at the front. The call never
    /// fails and the ring placement never depends on the heap fallback.
    pub fn allocate(&mut self, length: usize) -> (h: Handle)
        requires
            old(self).wf(),
        ensures
            final(self).wf(),
            final(self).chunk_capacity() == old(self).chunk_capacity(),
            h@.len == length,
            h@.boxed <==> (length == 0 || length > old(self).chunk_capacity()),
            h@.boxed ==> *final(self) == *old(self),
            !h@.boxed ==> 0 <= h@.start && h@.start + length <= final(self).chunk_capacity()
                && final(self).fill() == h@.start + length,
            !h@.boxed && old(self).fill() + length <= old(self).chunk_capacity() ==> h@.start
                == old(self).fill() && final(self).placed_in_front(*old(self), length as int),
            !h@.boxed && old(self).fill() + length > old(self).chunk_capacity() ==> h@.start == 0
                && (final(self).placed_after_reuse(*old(self), length as int)
                || final(self).placed_after_growth(*old(self), length as int)),
    {
        if length == 0 || length > self.chunk_length {
            return Handle { inner: HandleInner::Boxed { len: length } };
        }
        let remaining = self.chunk_length - self.offset;
        if remaining >= length {
            self.allocate_unchecked(length)
        } else {
            // The front chunk is exhausted: park it at the back.
            let full = self.chunks.pop_front().unwrap();
            self.chunks.push_back(full);
            self.offset = 0;
            let reuse = token_is_unique(&self.chunks[0].token);
            if reuse {
                // No handle addresses the next chunk any more: reset it.
                let mut front = self.chunks.pop_front().unwrap();
                front.carved = Ghost(Seq::empty());
                self.chunks.push_front(front);
                let h = self.allocate_unchecked(length);
                proof {
                    assert(self.regions_of(0) =~= seq![region_at(0, length as int)]);
                    assert(self.placed_after_reuse(*old(self), length as int));
                }
                h
            } else {
                // The next chunk still has live handles: grow the ring.
                let fresh = Chunk::new(self.chunk_length);
                self.chunks.push_front(fresh);
                let h = self.allocate_unchecked(length);
                proof {
                    assert(self.regions_of(0) =~= seq![region_at(0, length as int)]);
                    assert(self.placed_after_growth(*old(self), length as int));
                }
                h
            }
        }
    }

    /// How many chunks the ring currently owns.
    pub fn chunk_count(&self) -> (r: usize)
        ensures
            r == self.num_chunks(),
    {
        self.chunks.len()
    }

    /// Offset of the first free slot in the front chunk.
    pub fn fill_level(&self) -> (r: usize)
        ensures
            r == self.fill(),
    {
        self.offset
    }

    /// The liveness reports of all chunks, in ring order: one answer per
    /// chunk, true when that chunk's token reported itself free of handle
    /// clones. Each answer comes from the token and depends on what other
    /// threads have dropped, so only their number is pinned.
    fn chunk_free_reports(&self) -> (reports: Vec<bool>)
        ensures
            reports@.len() == self.num_chunks(),
    {
        let mut reports: Vec<bool> = Vec::new();
        let mut k: usize = 0;
        while k < self.chunks.len()
            invariant
                k <= self.chunks@.len(),
                reports@.len() == k,
            decreases self.chunks@.len() - k,
        {
            reports.push(token_is_unique(&self.chunks[k].token));
            k = k + 1;
        }
        reports
    }

    /// Whether any chunk's liveness token reports an outstanding handle:
    /// true exactly when at least one per-chunk report denies that the
    /// chunk is free.
    ///
    /// Releasing the arena while this holds would leave handles addressing
    /// freed storage; the surrounding raw-memory provider must treat it as
    /// a fatal invariant violation. The reports themselves depend on what
    /// other threads have dropped, so the result cannot be tied to the
    /// region model; how the reports are gathered and folded is contracted
    /// on the two helpers.
    pub fn has_outstanding_handles(&self) -> bool {
        let reports = self.chunk_free_reports();
        any_chunk_occupied(&reports)
    }
}

/// Whether any per-chunk liveness report denies that its chunk is free.
fn any_chunk_occupied(reports: &Vec<bool>) -> (r: bool)
    ensures
        r == (exists|i: int| 0 <= i < reports@.len() && !reports@[i]),
{
    let mut k: usize = 0;
    while k < reports.len()
        invariant
            k <= reports@.len(),
            forall|i: int| 0 <= i < k ==> reports@[i],
        decreases reports@.len() - k,
    {
        if !reports[k] {
            return true;
        }
        k = k + 1;
    }
    false
}

/// Disjointness law: in a well-formed arena, the regions carved from any
/// one chunk since its last reset are pairwise disjoint, and each lies
/// within the chunk. A chunk's record is only reset when its token reports
/// that no handle addresses it, so the regions of the live handles into one
/// chunk are among the recorded ones.
pub proof fn lemma_chunk_regions_disjoint(a: RingArena, k: int, i: int, j: int)
    requires
        a.wf(),
        0 <= k < a.num_chunks(),
        0 <= i < a.regions_of(k).len(),
        0 <= j < a.regions_of(k).len(),
        i != j,
    ensures
        a.regions_of(k)[i].disjoint(a.regions_of(k)[j]),
        a.regions_of(k)[i].within(a.chunk_capacity()),
{
}

} // verus!
