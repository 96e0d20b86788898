use vstd::prelude::*;

verus! {

/// Why a light-client operation was refused.
///
/// Every failure of update verification is local and recoverable: the state
/// is left unchanged and the caller may retry with a fresher update.
#[derive(Clone, Copy, Debug, PartialEq, Eq, Structural)]
pub enum Error {
    /// A decode failed or a length did not match the fixed schema.
    MalformedInput,
    /// The update violates ordering, or replays an already-committed slot.
    StaleUpdate,
    /// Fewer participating bits than the two-thirds quorum.
    InsufficientSignatures,
    /// A Merkle branch fails to reconstruct the expected root.
    InvalidMerkleProof,
    /// The aggregate signature did not check out.
    SignatureInvalid,
    /// The slot maps outside the configured fork schedule, or a record of
    /// the wrong fork variant was decoded or read.
    UnsupportedForkVariant,
    /// An update was applied before bootstrap completed.
    NotBootstrapped,
}

} // verus!
