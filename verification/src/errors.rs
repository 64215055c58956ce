//! Failure taxonomy of the factory.

use vstd::prelude::*;

verus! {

/// Every way a factory operation can fail.
///
/// Each failure aborts the whole operation with no partial effect; the caller
/// decides whether to resubmit with different inputs.
#[derive(Clone, Copy, Debug, PartialEq, Eq, Structural)]
pub enum EscrowError {
    /// A required authorization proof (party A's or the payer's) is missing.
    Unauthorized,
    /// A record already sits at the derived address; creation is one-shot.
    AlreadyExists,
    /// The payer cannot cover the minimum balance of the allocation.
    InsufficientFunds,
    /// No nonce in the search space yields a valid address.
    DerivationExhausted,
}

} // verus!
