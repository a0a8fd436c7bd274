//! A short-lived-object memory arena: a ring-structured allocator that places
//! variable-length regions inside fixed-capacity storage blocks, hands out a
//! handle per region, and reclaims released space for reuse.
//!
//! Two storage models are provided:
//! - [`RingArena`]: a deque of fixed-size chunks with a cursor into the front
//!   chunk; liveness per chunk is tracked by a shared-ownership token.
//! - [`TwoSidedArena`]: a single fixed-capacity buffer whose active regions
//!   are tracked in an ordered list and reused from either end; releases are
//!   reported through a cross-thread notification channel.
//!
//! The arena only does the bookkeeping: it decides where each region lives
//! and when a block may be reused. Mapping regions to actual memory is left
//! to the raw-memory provider that surrounds the arena.

pub mod arena;
pub mod region;
pub mod signal;
pub mod token;
pub mod two_sided;

pub use arena::{Chunk, Handle, HandleView, RingArena};
pub use two_sided::{TwoSidedArena, TwoSidedHandle};

use vstd::prelude::*;

verus! {

} // verus!
