//! The one way a transfer can fail.

use vstd::prelude::*;

verus! {

/// A transfer ended early through no decision of its own. Cancellation is not
/// among the failures: a cancelled transfer reports the bytes it moved.
#[derive(Clone, Copy, Debug, PartialEq, Eq, Structural)]
pub enum TransferError {
    /// The transport reported a failure while sending or receiving.
    Transport,
}

} // verus!
