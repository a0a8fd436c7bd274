//! Reclamation signals: thin trusted wrappers around `std::sync::mpsc`.
//!
//! The two-sided arena learns that a region's handle was released through an
//! unbounded multi-producer, single-consumer channel: any thread that
//! releases a handle sends the region's `(start, length)` pair, and the
//! arena drains the channel at the start of every allocation. What the
//! channel holds at any moment depends on other threads, so nothing is
//! promised about what a receive returns: the verified bookkeeping states
//! what holds whichever signals arrive.

use vstd::prelude::*;

verus! {

#[verifier::external_type_specification]
#[verifier::external_body]
#[verifier::reject_recursive_types(T)]
pub struct ExSender<T>(std::sync::mpsc::Sender<T>);

#[verifier::external_type_specification]
#[verifier::external_body]
#[verifier::reject_recursive_types(T)]
pub struct ExReceiver<T>(std::sync::mpsc::Receiver<T>);

/// Relies on `std::sync::mpsc::channel`: an unbounded channel; sends on the
/// returned sender never block, and the receiver sees them in send order.
#[verifier::external_body]
pub(crate) fn signal_channel() -> (
    std::sync::mpsc::Sender<(usize, usize)>,
    std::sync::mpsc::Receiver<(usize, usize)>,
) {
    std::sync::mpsc::channel()
}

/// Relies on `std::sync::mpsc::Sender::clone`: another sender for the same
/// channel, usable from any thread.
#[verifier::external_body]
pub(crate) fn signal_clone(
    sender: &std::sync::mpsc::Sender<(usize, usize)>,
) -> std::sync::mpsc::Sender<(usize, usize)> {
    sender.clone()
}

/// Relies on `std::sync::mpsc::Sender::send`: enqueues the region without
/// blocking. Sending fails only when the receiver is gone, that is, when
/// the arena itself no longer exists to reclaim the region; the outcome is
/// deliberately dropped, as release must not fail.
#[verifier::external_body]
pub(crate) fn signal_send(
    sender: &std::sync::mpsc::Sender<(usize, usize)>,
    start: usize,
    len: usize,
) {
    let _ = sender.send((start, len));
}

/// Relies on `std::sync::mpsc::Receiver::try_iter`: dequeues the regions
/// pending at this moment, in send order, without blocking. Which regions
/// are pending depends on concurrent releases, so no outcome is pinned
/// here.
#[verifier::external_body]
pub(crate) fn signal_drain(
    receiver: &std::sync::mpsc::Receiver<(usize, usize)>,
) -> Vec<(usize, usize)> {
    receiver.try_iter().collect()
}

} // verus!
