//! The two-sided single-buffer ring: one fixed-capacity buffer whose active
//! regions are kept in a list ordered by offset.
//!
//! The buffer behaves as a deque of regions: new regions are appended at
//! the right edge while there is room, and once the right side saturates,
//! space freed at the left edge is reused by placing at offset 0. Released
//! regions are reported through a cross-thread channel and removed from the
//! active list lazily, at the start of the next allocation. A request that
//! fits on neither side degrades to an independent heap buffer.

use vstd::prelude::*;
use crate::arena::HandleView;
use crate::region::{
    Region, all_end_by, lemma_ordered_disjoint_pairwise, lemma_remove_contains, ordered_disjoint,
    region_at,
};
use crate::signal::{signal_channel, signal_clone, signal_drain, signal_send};

verus! {

/// How a two-sided handle addresses its elements.
enum TwoSidedInner {
    /// A region of the arena's buffer; the sender publishes the
    /// reclamation signal for it on release.
    Ring { sender: std::sync::mpsc::Sender<(usize, usize)>, start: usize, len: usize },
    /// An independent heap buffer of `len` element slots.
    Boxed { len: usize },
}

/// Capability over one region of a [`TwoSidedArena`] (or over an
/// independent heap buffer, when neither edge of the ring had room).
///
/// Releasing the handle publishes the reclamation signal for its region;
/// the arena observes it on its next allocation, from whichever thread the
/// handle ended up on.
pub struct TwoSidedHandle {
    inner: TwoSidedInner,
}

impl View for TwoSidedHandle {
    type V = HandleView;

    closed spec fn view(&self) -> HandleView {
        match self.inner {
            TwoSidedInner::Ring { start, len, .. } => HandleView {
                boxed: false,
                start: start as int,
                len: len as int,
            },
            TwoSidedInner::Boxed { len } => HandleView { boxed: true, start: 0, len: len as int },
        }
    }
}

impl TwoSidedHandle {
    /// Whether this handle bypassed the ring and addresses an independent
    /// heap buffer instead.
    pub fn is_boxed(&self) -> (r: bool)
        ensures
            r == self@.boxed,
    {
        match &self.inner {
            TwoSidedInner::Ring { .. } => false,
            TwoSidedInner::Boxed { .. } => true,
        }
    }

    /// The number of element slots the handle addresses.
    pub fn len(&self) -> (r: usize)
        ensures
            r == self@.len,
    {
        match &self.inner {
            TwoSidedInner::Ring { len, .. } => *len,
            TwoSidedInner::Boxed { len } => *len,
        }
    }

    /// The first slot of the handle's region within the buffer, or `None`
    /// for a boxed handle.
    pub fn region_start(&self) -> (r: Option<usize>)
        ensures
            match r {
                Some(s) => !self@.boxed && s == self@.start,
                None => self@.boxed,
            },
    {
        match &self.inner {
            TwoSidedInner::Ring { start, .. } => Some(*start),
            TwoSidedInner::Boxed { .. } => None,
        }
    }

    /// Release the handle: publish the reclamation signal for its region,
    /// making the space eligible for reuse on the arena's next allocation.
    /// Releasing a boxed handle just gives the heap buffer back.
    pub fn release(self) {
        match self.inner {
            TwoSidedInner::Ring { sender, start, len } => signal_send(&sender, start, len),
            TwoSidedInner::Boxed { .. } => (),
        }
    }
}

/// Arena for short-lived objects: a single fixed-capacity buffer reused
/// from both ends.
pub struct TwoSidedArena {
    capacity: usize,
    /// The active regions, ordered by offset.
    regions: Vec<Region>,
    /// The write side handed to every ring-backed handle.
    sender: std::sync::mpsc::Sender<(usize, usize)>,
    /// The arena's read side, drained at the start of every allocation.
    receiver: std::sync::mpsc::Receiver<(usize, usize)>,
}

impl TwoSidedArena {
    /// The capacity of the buffer, in element slots.
    pub closed spec fn spec_capacity(self) -> int {
        self.capacity as int
    }

    /// The active regions, ordered by offset.
    pub closed spec fn live_regions(self) -> Seq<Region> {
        self.regions@
    }

    /// Well-formedness: the active regions are ordered by offset, disjoint,
    /// and within the buffer.
    pub closed spec fn wf(self) -> bool {
        &&& ordered_disjoint(self.regions@)
        &&& all_end_by(self.regions@, self.capacity as int)
    }

    /// Free slots at the right edge: from the end of the rightmost active
    /// region (or from 0 when none is active) to the end of the buffer.
    pub open spec fn right_free(self) -> int {
        if self.live_regions().len() == 0 {
            self.spec_capacity()
        } else {
            self.spec_capacity() - self.live_regions().last().end()
        }
    }

    /// Free slots at the left edge: up to the start of the leftmost active
    /// region (or the whole buffer when none is active).
    pub open spec fn left_free(self) -> int {
        if self.live_regions().len() == 0 {
            self.spec_capacity()
        } else {
            self.live_regions().first().start as int
        }
    }

    /// The placement rule finds room for `length` slots at one of the two
    /// edges.
    pub open spec fn can_place(self, length: int) -> bool {
        self.right_free() >= length || self.left_free() >= length
    }

    /// A fresh arena over a buffer of `capacity` element slots, with no
    /// active regions and a fresh reclamation channel.
    pub fn new(capacity: usize) -> (a: TwoSidedArena)
        ensures
            a.wf(),
            a.spec_capacity() == capacity,
            a.live_regions() == Seq::<Region>::empty(),
    {
        let (sender, receiver) = signal_channel();
        TwoSidedArena { capacity, regions: Vec::new(), sender, receiver }
    }

    /// Remove the active region released as `[start, start + len)`: locate
    /// it by offset, check that its length matches, and take it out of the
    /// list. A signal that matches no active region is ignored.
    fn reclaim_one(&mut self, start: usize, len: usize)
        requires
            old(self).wf(),
        ensures
            final(self).wf(),
            final(self).spec_capacity() == old(self).spec_capacity(),
            forall|r: Region| #[trigger]
                final(self).live_regions().contains(r) ==> old(self).live_regions().contains(r),
            old(self).live_regions().contains(Region { start, len }) ==> exists|i: int|
                0 <= i < old(self).live_regions().len() && old(self).live_regions()[i] == (Region {
                    start,
                    len,
                }) && final(self).live_regions() == old(self).live_regions().remove(i),
            !old(self).live_regions().contains(Region { start, len }) ==> *final(self) == *old(
                self,
            ),
    {
        let target = Region { start, len };
        let n = self.regions.len();
        let mut i: usize = 0;
        while i < n
            invariant
                n == self.regions@.len(),
                i <= n,
                self.wf(),
                *self == *old(self),
                forall|j: int| 0 <= j < i ==> self.regions@[j] != (Region { start, len }),
            decreases n - i,
        {
            let candidate = self.regions[i];
            if candidate.start == start && candidate.len == len {
                let ghost before = self.regions@;
                self.regions.remove(i);
                proof {
                    assert forall|a: int, b: int|
                        0 <= a < b < self.regions@.len() implies (#[trigger] self.regions@[a]).end()
                        <= (#[trigger] self.regions@[b]).start by {
                        if b < i {
                            assert(before[a].end() <= before[b].start);
                        } else if a < i {
                            assert(before[a].end() <= before[b + 1].start);
                        } else {
                            assert(before[a + 1].end() <= before[b + 1].start);
                        }
                    }
                    assert forall|k: int|
                        0 <= k < self.regions@.len() implies (#[trigger] self.regions@[k]).end()
                        <= self.capacity as int by {
                        if k < i {
                            assert(before[k].end() <= self.capacity as int);
                        } else {
                            assert(before[k + 1].end() <= self.capacity as int);
                        }
                    }
                    assert forall|r: Region| #[trigger]
                        self.regions@.contains(r) implies before.contains(r) by {
                        lemma_remove_contains(before, i as int, r);
                    }
                }
                return ;
            }
            i = i + 1;
        }
    }

    /// Drain all pending reclamation signals, removing each released region
    /// from the active list. Only regions released so far can disappear;
    /// none is added.
    fn drain_signals(&mut self)
        requires
            old(self).wf(),
        ensures
            final(self).wf(),
            final(self).spec_capacity() == old(self).spec_capacity(),
            forall|r: Region| #[trigger]
                final(self).live_regions().contains(r) ==> old(self).live_regions().contains(r),
    {
        let pending = signal_drain(&self.receiver);
        let mut i: usize = 0;
        while i < pending.len()
            invariant
                i <= pending@.len(),
                self.wf(),
                self.spec_capacity() == old(self).spec_capacity(),
                forall|r: Region| #[trigger]
                    self.live_regions().contains(r) ==> old(self).live_regions().contains(r),
            decreases pending@.len() - i,
        {
            let signal = pending[i];
            self.reclaim_one(signal.0, signal.1);
            i = i + 1;
        }
    }

    /// Apply the placement rule to the current active list and return the
    /// handle: append at the right edge if there is room, else place at the
    /// left edge if there is room there, else fall back to an independent
    /// heap buffer. The heap fallback is taken exactly when neither edge
    /// has room.
    pub fn place(&mut self, length: usize) -> (h: TwoSidedHandle)
        requires
            old(self).wf(),
        ensures
            final(self).wf(),
            final(self).spec_capacity() == old(self).spec_capacity(),
            h@.len == length,
            h@.boxed <==> !old(self).can_place(length as int),
            h@.boxed ==> *final(self) == *old(self),
            !h@.boxed && old(self).right_free() >= length ==> h@.start == old(self).spec_capacity()
                - old(self).right_free() && final(self).live_regions() == old(
            self).live_regions().push(region_at(h@.start, length as int)),
            !h@.boxed && old(self).right_free() < length ==> h@.start == 0 && final(
            self).live_regions() == seq![region_at(0, length as int)] + old(self).live_regions(),
    {
        let n = self.regions.len();
        let right_start: usize = if n == 0 {
            0
        } else {
            let last = self.regions[n - 1];
            last.start + last.len
        };
        if self.capacity - right_start >= length {
            let ghost before = self.regions@;
            self.regions.push(Region { start: right_start, len: length });
            proof {
                assert forall|a: int, b: int|
                    0 <= a < b < self.regions@.len() implies (#[trigger] self.regions@[a]).end()
                    <= (#[trigger] self.regions@[b]).start by {
                    if b < before.len() {
                        assert(before[a].end() <= before[b].start);
                    } else if a < before.len() - 1 {
                        assert(before[a].end() <= before[before.len() - 1].start);
                    }
                }
            }
            let sender = signal_clone(&self.sender);
            TwoSidedHandle {
                inner: TwoSidedInner::Ring { sender, start: right_start, len: length },
            }
        } else if n > 0 && self.regions[0].start >= length {
            let ghost before = self.regions@;
            self.regions.insert(0, Region { start: 0, len: length });
            proof {
                assert forall|a: int, b: int|
                    0 <= a < b < self.regions@.len() implies (#[trigger] self.regions@[a]).end()
                    <= (#[trigger] self.regions@[b]).start by {
                    if a >= 1 {
                        assert(before[a - 1].end() <= before[b - 1].start);
                    } else if b >= 2 {
                        assert(before[0].end() <= before[b - 1].start);
                    }
                }
            }
            let sender = signal_clone(&self.sender);
            TwoSidedHandle { inner: TwoSidedInner::Ring { sender, start: 0, len: length } }
        } else {
            TwoSidedHandle { inner: TwoSidedInner::Boxed { len: length } }
        }
    }

    /// Place a region of `length` element slots and return its handle.
    ///
    /// All pending reclamation signals are drained first, so space released
    /// by handles dropped since the last allocation, possibly on other
    /// threads, is available for reuse. Then the placement rule runs: right
    /// edge, left edge, or heap fallback. The call never fails, and a
    /// request the rule already had room for cannot come back heap-backed,
    /// whatever signals arrived: draining only removes regions.
    pub fn allocate(&mut self, length: usize) -> (h: TwoSidedHandle)
        requires
            old(self).wf(),
        ensures
            final(self).wf(),
            final(self).spec_capacity() == old(self).spec_capacity(),
            h@.len == length,
            old(self).can_place(length as int) ==> !h@.boxed,
            h@.boxed ==> !final(self).can_place(length as int),
            !h@.boxed ==> 0 <= h@.start && h@.start + length <= final(self).spec_capacity()
                && final(self).live_regions().contains(region_at(h@.start, length as int)),
            forall|r: Region| #[trigger]
                final(self).live_regions().contains(r) ==> r == region_at(h@.start, length as int)
                    || old(self).live_regions().contains(r),
    {
        self.drain_signals();
        let ghost drained = *self;
        let h = self.place(length);
        proof {
            if old(self).can_place(length as int) {
                lemma_prune_keeps_room(*old(self), drained, length as int);
            }
            let nr = region_at(h@.start, length as int);
            if !h@.boxed {
                if drained.right_free() >= length as int {
                    assert(self.live_regions() == drained.live_regions().push(nr));
                    assert(self.live_regions()[self.live_regions().len() - 1] == nr);
                    assert(self.live_regions().contains(nr));
                    assert(nr.end() <= self.spec_capacity());
                } else {
                    assert(self.live_regions() == seq![nr] + drained.live_regions());
                    assert(self.live_regions()[0] == nr);
                    assert(self.live_regions().contains(nr));
                }
                assert(self.live_regions().contains(nr));
                assert(all_end_by(self.live_regions(), self.spec_capacity()));
            }
            assert forall|r: Region| #[trigger] self.live_regions().contains(r) implies r == nr
                || old(self).live_regions().contains(r) by {
                if !h@.boxed && r != nr {
                    let j = choose|j: int|
                        0 <= j < self.live_regions().len() && self.live_regions()[j] == r;
                    if drained.right_free() >= length as int {
                        assert(drained.live_regions()[j] == r);
                    } else {
                        assert(drained.live_regions()[j - 1] == r);
                    }
                    assert(drained.live_regions().contains(r));
                }
            }
        }
        h
    }

    /// How many regions are currently active, counting released regions
    /// whose signals have not been drained yet.
    pub fn active_regions(&self) -> (r: usize)
        ensures
            r == self.live_regions().len(),
    {
        self.regions.len()
    }

    /// Whether any issued handle is still outstanding: drains the pending
    /// reclamation signals, then reports whether an active region remains.
    ///
    /// Releasing the arena while this holds would leave handles addressing
    /// freed storage; the surrounding raw-memory provider must treat that
    /// as a fatal invariant violation, not a recoverable condition.
    pub fn has_outstanding_handles(&mut self) -> (outstanding: bool)
        requires
            old(self).wf(),
        ensures
            final(self).wf(),
            final(self).spec_capacity() == old(self).spec_capacity(),
            outstanding == (final(self).live_regions().len() != 0),
            forall|r: Region| #[trigger]
                final(self).live_regions().contains(r) ==> old(self).live_regions().contains(r),
    {
        self.drain_signals();
        self.regions.len() != 0
    }
}

/// Reclamation never shrinks the free space at either edge: when one
/// well-formed arena's active regions are all among another's (same
/// capacity), the rightmost region can only end earlier and the leftmost
/// can only start later, so a request the placement rule had room for, it
/// still has room for after any regions are removed.
pub proof fn lemma_prune_keeps_room(prev: TwoSidedArena, pruned: TwoSidedArena, length: int)
    requires
        prev.wf(),
        pruned.wf(),
        prev.spec_capacity() == pruned.spec_capacity(),
        forall|r: Region| #[trigger]
            pruned.live_regions().contains(r) ==> prev.live_regions().contains(r),
        prev.can_place(length),
    ensures
        pruned.can_place(length),
{
    let a = prev.live_regions();
    let b = pruned.live_regions();
    if b.len() == 0 {
        // Both edges of the emptied buffer offer the whole capacity, and
        // neither free edge ever exceeds the capacity.
        if a.len() > 0 {
            assert(a[0].end() <= prev.spec_capacity());
            assert(a[a.len() - 1].end() <= prev.spec_capacity());
        }
    } else if prev.right_free() >= length {
        let last = b[b.len() - 1];
        assert(b.contains(last));
        let i = choose|i: int| 0 <= i < a.len() && a[i] == last;
        if i < a.len() - 1 {
            assert(a[i].end() <= a[a.len() - 1].start);
        }
        assert(last.end() <= a[a.len() - 1].end());
        assert(pruned.right_free() >= prev.right_free());
    } else {
        let first = b[0];
        assert(b.contains(first));
        let j = choose|j: int| 0 <= j < a.len() && a[j] == first;
        if j > 0 {
            assert(a[0].end() <= a[j].start);
        }
        assert(first.start >= a[0].start);
        assert(pruned.left_free() >= prev.left_free());
    }
}

/// Disjointness law: in a well-formed arena, the active regions of the
/// buffer are pairwise disjoint, and each lies within the buffer.
pub proof fn lemma_live_regions_disjoint(a: TwoSidedArena, i: int, j: int)
    requires
        a.wf(),
        0 <= i < a.live_regions().len(),
        0 <= j < a.live_regions().len(),
        i != j,
    ensures
        a.live_regions()[i].disjoint(a.live_regions()[j]),
        a.live_regions()[i].within(a.spec_capacity()),
{
    lemma_ordered_disjoint_pairwise(a.live_regions());
}

} // verus!
