//! Liveness tokens: thin trusted wrappers around `triomphe::Arc<()>`.
//!
//! Each storage chunk owns one token; every handle carved from the chunk
//! holds a clone of it. A chunk is free exactly when no handle's clone is
//! alive any more, which the token reports through a uniqueness test. The
//! report depends on what other threads have dropped, so nothing is promised
//! about its outcome: the verified bookkeeping states what holds whichever
//! answer comes back.

use vstd::prelude::*;

verus! {

#[verifier::external_type_specification]
#[verifier::external_body]
#[verifier::reject_recursive_types(T)]
pub struct ExArc<T: ?Sized>(triomphe::Arc<T>);

/// Relies on `triomphe::Arc::new`: mints a fresh shared-ownership token.
#[verifier::external_body]
pub(crate) fn token_new() -> triomphe::Arc<()> {
    triomphe::Arc::new(())
}

/// Relies on `triomphe::Arc::clone`: another owner of the same token; the
/// chunk stops reporting itself unique until the clone is dropped.
#[verifier::external_body]
pub(crate) fn token_clone(token: &triomphe::Arc<()>) -> triomphe::Arc<()> {
    token.clone()
}

/// Relies on `triomphe::Arc::is_unique`: true exactly when the reference
/// count is 1, that is, when no clone of this token is alive anywhere.
/// The outcome depends on concurrent drops, so no result is pinned here.
#[verifier::external_body]
pub(crate) fn token_is_unique(token: &triomphe::Arc<()>) -> bool {
    triomphe::Arc::is_unique(token)
}

} // verus!
