//! Authorization-gated record store with deterministic addressing and an
//! incentive mint.
//!
//! Reviews, their comment counters and comments are records kept at addresses
//! derived deterministically from typed seeds.  Every mutating operation
//! re-derives the expected address from the caller-supplied logical key and
//! checks ownership before touching a record, and every record creation mints
//! a fixed reward to the creator through an authority that is itself a derived
//! address.
use vstd::prelude::*;

pub mod bytesutil;
pub mod derivation;
pub mod laws;
pub mod layout;
pub mod ledger;
pub mod state;
pub mod table;

verus! {

/// Base units of the reward token minted for each created review.
pub const REVIEW_REWARD: u64 = 10_000_000;

/// Base units of the reward token minted for each created comment.
pub const COMMENT_REWARD: u64 = 5_000_000;

/// Every failure an operation can report.  Each operation aborts with no
/// partial effect and tells the caller which rule was broken.
#[derive(Clone, Copy, Debug, PartialEq, Eq, Structural)]
pub enum ErrorCode {
    /// A rating outside the closed interval `[1, 5]`.
    InvalidRating,
    /// A creation aimed at an address that already holds, or once held, a record.
    DuplicateRecord,
    /// The operation references a review or counter that does not exist.
    RecordNotFound,
    /// The signer is neither the stored nor the derived owner of the record.
    OwnershipMismatch,
    /// No bump value yields a valid derived address for the given seeds.
    DerivationExhausted,
    /// The reward mint or its metadata was already created.
    AlreadyInitialized,
    /// No valid minting credential could be produced for the operation.
    MintAuthorizationFailed,
}

} // verus!
