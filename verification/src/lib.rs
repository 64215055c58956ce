//! Deterministic escrow-account factory.
//!
//! The library derives a reproducible storage address for each
//! (party A, party B, salt) triple — searching disambiguation nonces from the
//! highest value downward until the host's validity predicate accepts one —
//! and initializes a fixed-layout escrow record at that address exactly once,
//! enforcing authorization, funding and non-collision rules.

use vstd::prelude::*;

pub mod derivation;
pub mod errors;
pub mod escrow;
pub mod ids;

verus! {

/// Size in bytes of a persisted escrow record: an 8-byte discriminator,
/// two 32-byte party identifiers, and an 8-byte salt.
pub const ESCROW_ACCOUNT_SPACE: usize = 8 + 32 + 32 + 8;

} // verus!
