//! The cancellation signal: a flag that one producer raises once and that
//! every part of a transfer reads before it commits to more work.

use vstd::prelude::*;

use tokio::sync::watch::Receiver;

verus! {

/// `tokio::sync::watch::Receiver`: the reading end of a watch channel.
#[verifier::external_type_specification]
#[verifier::external_body]
#[verifier::reject_recursive_types(T)]
pub struct ExWatchReceiver<T>(tokio::sync::watch::Receiver<T>);

/// Reads the flag with `Receiver::borrow`.
///
/// The value is whatever the producer sent last, so nothing is claimed of
/// it: callers are verified for either answer.
#[verifier::external_body]
pub(crate) fn cancellation_requested(signal: &Receiver<bool>) -> bool {
    *signal.borrow()
}

} // verus!
