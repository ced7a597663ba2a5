use vstd::prelude::*;

verus! {

/// Every failure of an attestation. All are fatal: no journal comes with any of them.
#[derive(Debug, Clone, Copy, PartialEq, Eq, Structural)]
pub enum AttestError {
    /// An input was malformed or of the wrong size.
    InputDecoding,
    /// The state-proof bundle could not be verified into a view of a block.
    ViewReconstruction,
    /// The requested log index is not below the number of matching events.
    EventNotFound,
}

} // verus!
