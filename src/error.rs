//! Failures that stop the discovery service from starting.
use vstd::prelude::*;

verus! {

#[derive(Clone, Copy, Debug, PartialEq, Eq, Structural)]
pub enum DiscoveryError {
    /// The persisted sequence counter is not an 8-byte value.
    StoreCorrupt,
    /// The persisted sequence counter cannot be incremented any further.
    SequenceExhausted,
    /// The local configuration cannot be advertised (its port lies below the
    /// discovery port offset).
    ConfigInvalid,
}

} // verus!
