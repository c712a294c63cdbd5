use vstd::prelude::*;

verus! {

/// The failure kinds an operation of the ledger can report. Every failed
/// call leaves the stored state exactly as it was: there is no partial
/// commit.
#[derive(Clone, Copy, Debug, PartialEq, Eq, Structural)]
pub enum Error {
    /// The caller's identity does not hold the role the operation demands.
    Unauthorized,
    /// No campaign is stored under the given id.
    NotFound,
    /// A supplied amount or target was not positive.
    InvalidArgument,
    /// The campaign's current status forbids the operation.
    InvalidState,
    /// The campaign holds nothing to withdraw.
    InsufficientFunds,
    /// The admin identity had already been set.
    AlreadyInitialized,
}

} // verus!
