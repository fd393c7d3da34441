//! A custodial escrow core.
//!
//! A depositor places a quantity of a fungible asset into a vault account
//! that is controlled not by any private key but by a deterministically
//! derived control address. The depositor can later withdraw the whole
//! balance, and only the depositor: authority over the vault is re-proved
//! at withdrawal time by recomputing the derivation, not by a signature.
//!
//! The crate is split into:
//! - [`derivation`]: the derivation authority, a deterministic hash-and-probe
//!   search that yields a key-less control address and the nonce that found it;
//! - [`account`]: the asset-holding account model and the transfer
//!   collaborator that moves balances between accounts;
//! - [`ledger`]: the escrow ledger, owning one [`ledger::EscrowAccount`]
//!   record per (owner, asset) pair, with `deposit` and `withdraw`;
//! - [`codec`]: the fixed-size binary layout of a persisted escrow record;
//! - [`errors`]: the error kinds surfaced by the operations above.

pub mod account;
pub mod codec;
pub mod derivation;
pub mod errors;
pub mod ledger;
