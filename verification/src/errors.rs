//! Error kinds surfaced by the escrow operations.

use vstd::prelude::*;

verus! {

/// A failure reported by the transfer collaborator while moving a balance
/// between two asset-holding accounts.
#[derive(Clone, Copy, Debug, PartialEq, Eq, Structural)]
pub enum TransferError {
    /// The presented authority does not match the account's recorded controller.
    AuthorityMismatch,
    /// The two accounts hold different asset types.
    AssetMismatch,
    /// The source account's balance is smaller than the amount to move.
    InsufficientBalance,
    /// The destination account cannot hold the sum in its 64-bit balance.
    BalanceOverflow,
}

/// An escrow operation failure. Every check is made before any mutation,
/// so an error always leaves the ledger and all accounts unchanged.
#[derive(Clone, Copy, Debug, PartialEq, Eq, Structural)]
pub enum EscrowError {
    /// A deposit of zero units was requested.
    InvalidAmount,
    /// Asset identifiers disagree across the accounts and the entry involved.
    AssetMismatch,
    /// The source or destination account is not owned by the depositor, or
    /// the vault is not controlled by the derived control address.
    AccountOwnershipMismatch,
    /// The caller is not the owner of the escrow entry.
    Unauthorized,
    /// No escrow entry exists for the given (owner, asset) pair.
    NoSuchEntry,
    /// The bounded nonce search ran out of candidates; a fatal
    /// configuration-level error that practically never occurs.
    DerivationExhausted,
    /// The transfer collaborator failed; passed through unchanged.
    TransferFailure(TransferError),
}

} // verus!
