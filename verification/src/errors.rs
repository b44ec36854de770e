//! Error taxonomy of the protocol. Every orchestrator aborts with exactly one
//! of these; no operation reports partial success.

use vstd::prelude::*;

verus! {

/// The ways an operation can fail. `InvalidLockupEnd` is a validation failure
/// and `NotYetExpired` a timing failure, the two lockup-specific cases; the
/// rest classify authorization failures, failures propagated from the ledger
/// and issuance collaborators, and arithmetic overflow. Every failure aborts
/// its operation atomically; none is retried.
#[derive(Clone, Copy, PartialEq, Eq, Structural, Debug)]
pub enum ErrorCode {
    /// Attempted to redeem from a vault whose lockup period has not ended.
    NotYetExpired,
    /// Lockup end cannot be before the subscription period end.
    InvalidLockupEnd,
    /// A signer or account reference failed an authority or derivation check.
    AuthorizationError,
    /// An identity that an operation must create already exists.
    AlreadyInUse,
    /// A referenced account, mint, campaign or issuance state does not exist.
    AccountNotFound,
    /// A token account belongs to a different mint than the operation needs.
    MintMismatch,
    /// An account reference does not match the one recorded at configuration.
    StateMismatch,
    /// A balance or supply would underflow or overflow its representation.
    ArithmeticError,
    /// A debit exceeds the available balance.
    InsufficientFunds,
    /// The issuance collaborator has too little collateral left to issue.
    InsufficientCollateral,
}

} // verus!
