//! The asset-holding account model and the transfer collaborator.
//!
//! An account is controlled either by a keyed identity (a holder of a
//! private key, who authorizes moves by signature) or by a derived, key-less
//! address (which authorizes moves only through an
//! [`crate::derivation::AuthorityProof`]). The two namespaces are disjoint:
//! no signature can ever match a derived controller.

use vstd::prelude::*;

use crate::derivation::AuthorityProof;
use crate::errors::TransferError;

verus! {

/// The controller of an asset-holding account: either a key-pair identity
/// or a derived, key-less address.
#[derive(Clone, Copy, Debug, PartialEq, Eq, Structural)]
pub enum ControlAddress {
    /// An identity backed by a private key; authorizes by signature.
    Keyed(u64),
    /// A derived address with no private key; authorizes only by a
    /// recomputed authority proof.
    Derived(u64),
}

/// An account holding a balance of one fungible asset type.
#[derive(Clone, Copy, Debug, PartialEq, Eq, Structural)]
pub struct TokenAccount {
    /// The controller that must authorize any outbound move.
    pub authority: ControlAddress,
    /// The asset type this account holds.
    pub asset: u64,
    /// The current balance, in indivisible units.
    pub balance: u64,
}

/// The authorization presented to the transfer collaborator: a signature by
/// a keyed identity, or a one-time proof of a derived authority.
pub enum TransferAuthority {
    /// The named identity signed the transfer.
    Signature(u64),
    /// A recomputed derivation proof; consumed by the one transfer it
    /// authorizes.
    Proof(AuthorityProof),
}

impl TransferAuthority {
    /// Whether this authorization matches an account's recorded controller.
    /// A signature matches only a keyed controller with the same identity; a
    /// proof matches only a derived controller with the proven address.
    pub open spec fn matches(self, controller: ControlAddress) -> bool {
        match (self, controller) {
            (TransferAuthority::Signature(signer), ControlAddress::Keyed(key)) => signer == key,
            (TransferAuthority::Proof(proof_), ControlAddress::Derived(address)) => proof_.address()
                == address,
            _ => false,
        }
    }
}

/// The outcome the transfer collaborator owes for given pre-states: the
/// first failing check, or success.
pub open spec fn transfer_outcome(
    from: TokenAccount,
    to: TokenAccount,
    amount: u64,
    authority: TransferAuthority,
) -> Result<(), TransferError> {
    if !authority.matches(from.authority) {
        Err(TransferError::AuthorityMismatch)
    } else if from.asset != to.asset {
        Err(TransferError::AssetMismatch)
    } else if from.balance < amount {
        Err(TransferError::InsufficientBalance)
    } else if to.balance + amount > u64::MAX {
        Err(TransferError::BalanceOverflow)
    } else {
        Ok(())
    }
}

/// Move `amount` units from `from` to `to`, if `authority` matches `from`'s
/// recorded controller, the two accounts hold the same asset type, the
/// source balance suffices and the destination balance can hold the sum.
/// On any failure both accounts are left unchanged.
pub fn transfer(
    from: &mut TokenAccount,
    to: &mut TokenAccount,
    amount: u64,
    authority: TransferAuthority,
) -> (r: Result<(), TransferError>)
    ensures
        r == transfer_outcome(*old(from), *old(to), amount, authority),
        r is Ok ==> *final(from) == (TokenAccount {
            balance: (old(from).balance - amount) as u64,
            ..*old(from)
        }) && *final(to) == (TokenAccount { balance: (old(to).balance + amount) as u64, ..*old(to) }),
        r is Err ==> *final(from) == *old(from) && *final(to) == *old(to),
{
    let authorized = match (&authority, &from.authority) {
        (TransferAuthority::Signature(signer), ControlAddress::Keyed(key)) => *signer == *key,
        (TransferAuthority::Proof(proof_), ControlAddress::Derived(address)) => proof_.address_value()
            == *address,
        _ => false,
    };
    if !authorized {
        return Err(TransferError::AuthorityMismatch);
    }
    if from.asset != to.asset {
        return Err(TransferError::AssetMismatch);
    }
    if from.balance < amount {
        return Err(TransferError::InsufficientBalance);
    }
    if amount > u64::MAX - to.balance {
        return Err(TransferError::BalanceOverflow);
    }
    from.balance = from.balance - amount;
    to.balance = to.balance + amount;
    Ok(())
}

/// No signature can move funds out of an account controlled by a derived
/// address: a derived controller has no private key, so the collaborator
/// refuses every signature-authorized transfer against it.
pub proof fn lemma_signature_cannot_move_derived(
    from: TokenAccount,
    to: TokenAccount,
    amount: u64,
    signer: u64,
)
    requires
        from.authority is Derived,
    ensures
        transfer_outcome(from, to, amount, TransferAuthority::Signature(signer)) == Err::<
            (),
            TransferError,
        >(TransferError::AuthorityMismatch),
{
}

} // verus!
