//! Error taxonomy of the driver core.

use vstd::prelude::*;

verus! {

/// Everything that a panel or packing operation can fail with.
#[derive(Clone, Copy, Debug, PartialEq, Eq, Structural)]
pub enum EpdError {
    /// The underlying bus write was incomplete or failed; propagated
    /// untouched, never retried by the core.
    Transport,
    /// A caller-supplied bitmap does not have the exact size the operation
    /// needs; rejected before any bus transaction is planned.
    InvalidBufferSize,
    /// The busy-line poll exceeded its poll-count budget.
    BusyTimeout,
}

} // verus!
