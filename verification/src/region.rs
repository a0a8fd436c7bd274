//! Region descriptors: the `(start, length)` pairs the arenas hand out, and
//! the disjointness facts their bookkeeping maintains.

use vstd::prelude::*;

verus! {

/// A contiguous sub-range `[start, start + len)` of one storage block.
#[derive(Clone, Copy, PartialEq, Eq, Structural, Debug)]
pub struct Region {
    pub start: usize,
    pub len: usize,
}

impl Region {
    /// One past the last slot of the region.
    pub open spec fn end(self) -> int {
        self.start + self.len
    }

    /// Two regions are disjoint when their half-open intervals do not meet.
    pub open spec fn disjoint(self, other: Region) -> bool {
        self.end() <= other.start || other.end() <= self.start
    }

    /// The region lies within a block of the given capacity.
    pub open spec fn within(self, capacity: int) -> bool {
        self.end() <= capacity
    }
}

/// The region `[start, start + len)`, from mathematical bounds.
pub open spec fn region_at(start: int, len: int) -> Region {
    Region { start: start as usize, len: len as usize }
}

/// Every region of the sequence ends at or before `bound`.
pub open spec fn all_end_by(rs: Seq<Region>, bound: int) -> bool {
    forall|i: int| 0 <= i < rs.len() ==> (#[trigger] rs[i]).end() <= bound
}

/// The regions of the sequence are pairwise disjoint.
pub open spec fn pairwise_disjoint(rs: Seq<Region>) -> bool {
    forall|i: int, j: int|
        0 <= i < rs.len() && 0 <= j < rs.len() && i != j ==> #[trigger] rs[i].disjoint(#[trigger] rs[j])
}

/// The regions of the sequence are ordered by offset and disjoint: each
/// ends at or before the next one starts.
pub open spec fn ordered_disjoint(rs: Seq<Region>) -> bool {
    forall|i: int, j: int|
        0 <= i < j < rs.len() ==> (#[trigger] rs[i]).end() <= (#[trigger] rs[j]).start
}

/// Regions ordered by offset are pairwise disjoint.
pub proof fn lemma_ordered_disjoint_pairwise(rs: Seq<Region>)
    requires
        ordered_disjoint(rs),
    ensures
        pairwise_disjoint(rs),
{
    assert forall|i: int, j: int|
        0 <= i < rs.len() && 0 <= j < rs.len() && i != j implies #[trigger] rs[i].disjoint(
        #[trigger] rs[j],
    ) by {
        if i < j {
            assert(rs[i].end() <= rs[j].start);
        } else {
            assert(rs[j].end() <= rs[i].start);
        }
    }
}

/// Removing a region from a sequence can only lose members: whatever the
/// shortened sequence contains, the original contained too.
pub proof fn lemma_remove_contains(rs: Seq<Region>, i: int, r: Region)
    requires
        0 <= i < rs.len(),
        rs.remove(i).contains(r),
    ensures
        rs.contains(r),
{
    let j = choose|j: int| 0 <= j < rs.remove(i).len() && rs.remove(i)[j] == r;
    if j < i {
        assert(rs[j] == r);
    } else {
        assert(rs[j + 1] == r);
    }
}

/// A region that starts at or after `bound` is disjoint from every region
/// that ends by `bound`; so a sequence of regions ending by `bound`,
/// extended with such a region, stays pairwise disjoint.
pub proof fn lemma_extend_disjoint(rs: Seq<Region>, r: Region, bound: int)
    requires
        pairwise_disjoint(rs),
        all_end_by(rs, bound),
        bound <= r.start,
    ensures
        pairwise_disjoint(rs.push(r)),
{
    let ext = rs.push(r);
    assert forall|i: int, j: int|
        0 <= i < ext.len() && 0 <= j < ext.len() && i != j implies #[trigger] ext[i].disjoint(
        #[trigger] ext[j],
    ) by {
        if i < rs.len() && j < rs.len() {
            assert(rs[i].disjoint(rs[j]));
        } else if i < rs.len() {
            assert(rs[i].end() <= bound);
        } else {
            assert(rs[j].end() <= bound);
        }
    }
}

} // verus!
