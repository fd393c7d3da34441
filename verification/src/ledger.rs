//! The escrow ledger.
//!
//! The ledger owns one [`EscrowAccount`] record per (owner, asset) pair,
//! created lazily by the first deposit, grown by later deposits, and
//! destroyed — in full, there is no partial withdrawal — by a withdrawal.
//! Every check is made before any mutation, so each operation is atomic:
//! either the balance accounting and the transfer both happen, or neither.
//!
//! In contracts the ledger is abstracted to a map from (owner, asset) to the
//! entry's balance; [`apply_deposits`] and [`lemma_deposits_accumulate`]
//! state how a whole sequence of deposits acts on that map.

use vstd::prelude::*;

use crate::account::ControlAddress;
use crate::account::TokenAccount;
use crate::account::TransferAuthority;
use crate::account::transfer;
use crate::derivation::ESCROW_TAG;
use crate::derivation::assert_authority;
use crate::derivation::spec_derive;
use crate::errors::EscrowError;
use crate::errors::TransferError;

verus! {

/// One escrow entry: the persisted record tracking one depositor's balance
/// of one asset type held in custody.
#[derive(Clone, Copy, Debug, PartialEq, Eq, Structural)]
pub struct EscrowAccount {
    /// The depositor's identity; set at creation, never reassigned.
    pub owner: u64,
    /// The asset type held; set at creation.
    pub asset: u64,
    /// The balance: the exact sum of all deposits merged into this entry.
    pub amount: u64,
    /// The nonce discovered during address derivation; needed to reconstruct
    /// the authority proof at withdrawal time.
    pub derivation_nonce: u8,
}

/// The pair that addresses an entry.
pub open spec fn key_of(e: EscrowAccount) -> (u64, u64) {
    (e.owner, e.asset)
}

/// A well-formed entry carries the nonce its own derivation discovers.
pub open spec fn entry_wf(e: EscrowAccount) -> bool {
    match spec_derive(ESCROW_TAG, e.owner, e.asset) {
        Some(p) => p.1 == e.derivation_nonce,
        None => false,
    }
}

/// No two entries share an (owner, asset) pair.
pub open spec fn keys_distinct(s: Seq<EscrowAccount>) -> bool {
    forall|i: int, j: int| 0 <= i < j < s.len() ==> key_of(s[i]) != key_of(s[j])
}

/// The balance map that a sequence of entries denotes.
pub open spec fn map_of(s: Seq<EscrowAccount>) -> Map<(u64, u64), u64>
    decreases s.len(),
{
    if s.len() == 0 {
        Map::empty()
    } else {
        map_of(s.drop_last()).insert(key_of(s.last()), s.last().amount)
    }
}

/// A key is in the balance map exactly when some entry carries it.
pub proof fn lemma_map_of_contains_key(s: Seq<EscrowAccount>, k: (u64, u64))
    ensures
        map_of(s).contains_key(k) <==> (exists|i: int| 0 <= i < s.len() && key_of(s[i]) == k),
    decreases s.len(),
{
    if s.len() > 0 {
        lemma_map_of_contains_key(s.drop_last(), k);
        if key_of(s.last()) == k {
            assert(key_of(s[s.len() - 1]) == k);
        } else {
            if exists|i: int| 0 <= i < s.len() && key_of(s[i]) == k {
                let i = choose|i: int| 0 <= i < s.len() && key_of(s[i]) == k;
                assert(s.drop_last()[i] == s[i]);
            }
            if map_of(s.drop_last()).contains_key(k) {
                let i = choose|i: int| 0 <= i < s.drop_last().len() && key_of(s.drop_last()[i]) == k;
                assert(key_of(s[i]) == k);
            }
        }
    }
}

/// With distinct keys, the balance map carries each entry's own amount.
pub proof fn lemma_map_of_value(s: Seq<EscrowAccount>, i: int)
    requires
        keys_distinct(s),
        0 <= i < s.len(),
    ensures
        map_of(s).contains_key(key_of(s[i])),
        map_of(s)[key_of(s[i])] == s[i].amount,
    decreases s.len(),
{
    if i == s.len() - 1 {
    } else {
        assert(keys_distinct(s.drop_last())) by {
            assert(forall|p: int, q: int|
                0 <= p < q < s.drop_last().len() ==> key_of(s.drop_last()[p]) == key_of(s[p])
                    && key_of(s.drop_last()[q]) == key_of(s[q]));
        }
        assert(s.drop_last()[i] == s[i]);
        lemma_map_of_value(s.drop_last(), i);
        assert(key_of(s[i]) != key_of(s[s.len() - 1]));
    }
}

/// Updating one entry in place, key unchanged, updates exactly its balance.
pub proof fn lemma_map_of_update(s: Seq<EscrowAccount>, i: int, e: EscrowAccount)
    requires
        keys_distinct(s),
        0 <= i < s.len(),
        key_of(e) == key_of(s[i]),
    ensures
        map_of(s.update(i, e)) == map_of(s).insert(key_of(e), e.amount),
    decreases s.len(),
{
    if i == s.len() - 1 {
        assert(s.update(i, e).drop_last() =~= s.drop_last());
        assert(map_of(s.update(i, e)) =~= map_of(s).insert(key_of(e), e.amount));
    } else {
        assert(keys_distinct(s.drop_last())) by {
            assert(forall|p: int, q: int|
                0 <= p < q < s.drop_last().len() ==> key_of(s.drop_last()[p]) == key_of(s[p])
                    && key_of(s.drop_last()[q]) == key_of(s[q]));
        }
        assert(s.drop_last()[i] == s[i]);
        lemma_map_of_update(s.drop_last(), i, e);
        assert(s.update(i, e).drop_last() =~= s.drop_last().update(i, e));
        assert(s.update(i, e).last() == s.last());
        assert(key_of(e) != key_of(s.last()));
        assert(map_of(s.update(i, e)) =~= map_of(s).insert(key_of(e), e.amount));
    }
}

/// Appending an entry inserts its key and balance.
pub proof fn lemma_map_of_push(s: Seq<EscrowAccount>, e: EscrowAccount)
    ensures
        map_of(s.push(e)) == map_of(s).insert(key_of(e), e.amount),
{
    assert(s.push(e).drop_last() =~= s);
    assert(s.push(e).last() == e);
}

/// Removing one entry, keys distinct, removes exactly its key.
pub proof fn lemma_map_of_remove(s: Seq<EscrowAccount>, i: int)
    requires
        keys_distinct(s),
        0 <= i < s.len(),
    ensures
        map_of(s.remove(i)) == map_of(s).remove(key_of(s[i])),
    decreases s.len(),
{
    if i == s.len() - 1 {
        assert(s.remove(i) =~= s.drop_last());
        lemma_map_of_contains_key(s.drop_last(), key_of(s[i]));
        assert(forall|j: int|
            0 <= j < s.drop_last().len() ==> key_of(s.drop_last()[j]) == key_of(s[j]));
        assert(!map_of(s.drop_last()).contains_key(key_of(s[i])));
        assert(map_of(s.remove(i)) =~= map_of(s).remove(key_of(s[i])));
    } else {
        assert(keys_distinct(s.drop_last())) by {
            assert(forall|p: int, q: int|
                0 <= p < q < s.drop_last().len() ==> key_of(s.drop_last()[p]) == key_of(s[p])
                    && key_of(s.drop_last()[q]) == key_of(s[q]));
        }
        assert(s.drop_last()[i] == s[i]);
        lemma_map_of_remove(s.drop_last(), i);
        assert(s.remove(i).drop_last() =~= s.drop_last().remove(i));
        assert(s.remove(i).last() == s.last());
        assert(key_of(s[i]) != key_of(s.last()));
        assert(map_of(s.remove(i)) =~= map_of(s).remove(key_of(s[i])));
    }
}

/// The balance an abstract ledger map holds for a key: the entry's balance,
/// or zero when no entry exists.
pub open spec fn balance_of(m: Map<(u64, u64), u64>, k: (u64, u64)) -> int {
    if m.contains_key(k) {
        m[k] as int
    } else {
        0
    }
}

/// The outcome a deposit owes for given pre-states: the first failing
/// precondition check, or success.
pub open spec fn deposit_outcome(
    source: TokenAccount,
    vault: TokenAccount,
    depositor: u64,
    asset: u64,
    amount: u64,
) -> Result<(), EscrowError> {
    if amount == 0 {
        Err(EscrowError::InvalidAmount)
    } else if source.asset != asset || vault.asset != asset {
        Err(EscrowError::AssetMismatch)
    } else if source.authority != ControlAddress::Keyed(depositor) {
        Err(EscrowError::AccountOwnershipMismatch)
    } else {
        match spec_derive(ESCROW_TAG, depositor, asset) {
            None => Err(EscrowError::DerivationExhausted),
            Some(p) => {
                if vault.authority != ControlAddress::Derived(p.0) {
                    Err(EscrowError::AccountOwnershipMismatch)
                } else if source.balance < amount {
                    Err(EscrowError::TransferFailure(TransferError::InsufficientBalance))
                } else if vault.balance + amount > u64::MAX {
                    Err(EscrowError::TransferFailure(TransferError::BalanceOverflow))
                } else {
                    Ok(())
                }
            },
        }
    }
}

/// The outcome a withdrawal owes for given pre-states: the first failing
/// precondition check, or success.
pub open spec fn withdraw_outcome(
    entries: Map<(u64, u64), u64>,
    caller: u64,
    depositor: u64,
    vault: TokenAccount,
    destination: TokenAccount,
    asset: u64,
) -> Result<(), EscrowError> {
    if !entries.contains_key((depositor, asset)) {
        Err(EscrowError::NoSuchEntry)
    } else if caller != depositor {
        Err(EscrowError::Unauthorized)
    } else if vault.asset != asset || destination.asset != asset {
        Err(EscrowError::AssetMismatch)
    } else if destination.authority != ControlAddress::Keyed(depositor) {
        Err(EscrowError::AccountOwnershipMismatch)
    } else {
        match spec_derive(ESCROW_TAG, depositor, asset) {
            None => Err(EscrowError::DerivationExhausted),
            Some(p) => {
                if vault.authority != ControlAddress::Derived(p.0) {
                    Err(EscrowError::AccountOwnershipMismatch)
                } else if vault.balance < entries[(depositor, asset)] {
                    Err(EscrowError::TransferFailure(TransferError::InsufficientBalance))
                } else if destination.balance + entries[(depositor, asset)] > u64::MAX {
                    Err(EscrowError::TransferFailure(TransferError::BalanceOverflow))
                } else {
                    Ok(())
                }
            },
        }
    }
}

/// The escrow ledger: the exclusive owner of every live escrow entry. All
/// access to an entry is mediated by `deposit` and `withdraw`.
pub struct EscrowLedger {
    entries: Vec<EscrowAccount>,
}

impl View for EscrowLedger {
    type V = Map<(u64, u64), u64>;

    closed spec fn view(&self) -> Map<(u64, u64), u64> {
        map_of(self.entries@)
    }
}

impl EscrowLedger {
    /// Well-formedness: at most one live entry per (owner, asset) pair, and
    /// every entry carries the nonce its own derivation discovers.
    pub closed spec fn wf(self) -> bool {
        &&& keys_distinct(self.entries@)
        &&& forall|i: int| 0 <= i < self.entries@.len() ==> entry_wf(#[trigger] self.entries@[i])
    }

    /// An empty ledger.
    pub fn new() -> (r: EscrowLedger)
        ensures
            r.wf(),
            r@ == Map::<(u64, u64), u64>::empty(),
    {
        EscrowLedger { entries: Vec::new() }
    }

    /// The index of the live entry for (owner, asset), if one exists.
    fn find_entry(&self, owner: u64, asset: u64) -> (r: Option<usize>)
        ensures
            match r {
                Some(i) => 0 <= i < self.entries@.len() && key_of(self.entries@[i as int]) == (
                    owner,
                    asset,
                ),
                None => forall|i: int|
                    0 <= i < self.entries@.len() ==> key_of(#[trigger] self.entries@[i]) != (
                        owner,
                        asset,
                    ),
            },
    {
        let mut i: usize = 0;
        while i < self.entries.len()
            invariant
                i <= self.entries@.len(),
                forall|j: int|
                    0 <= j < i ==> key_of(#[trigger] self.entries@[j]) != (owner, asset),
            decreases self.entries@.len() - i,
        {
            let e = &self.entries[i];
            if e.owner == owner && e.asset == asset {
                return Some(i);
            }
            i = i + 1;
        }
        None
    }

    /// The balance currently held in escrow for (owner, asset), if an entry
    /// exists.
    pub fn entry_amount(&self, owner: u64, asset: u64) -> (r: Option<u64>)
        requires
            self.wf(),
        ensures
            r == (if self@.contains_key((owner, asset)) {
                Some(self@[(owner, asset)])
            } else {
                None::<u64>
            }),
    {
        proof {
            lemma_map_of_contains_key(self.entries@, (owner, asset));
        }
        match self.find_entry(owner, asset) {
            Some(i) => {
                proof {
                    lemma_map_of_value(self.entries@, i as int);
                }
                Some(self.entries[i].amount)
            },
            None => None,
        }
    }

    /// Deposit `amount` units of `asset` from the depositor's own `source`
    /// account into the `vault` account controlled by the derived authority
    /// for (depositor, asset), creating the entry if absent and merging the
    /// amount into its balance. Each call is a distinct economic action: two
    /// equal deposits perform two real transfers and merge both amounts.
    ///
    /// The entry's balance is a 64-bit integer, so the caller must not let
    /// the running sum outgrow it; every other check is made here, before
    /// any mutation, and any failure leaves the ledger and both accounts
    /// unchanged.
    pub fn deposit(
        &mut self,
        depositor: u64,
        source: &mut TokenAccount,
        vault: &mut TokenAccount,
        asset: u64,
        amount: u64,
    ) -> (r: Result<(), EscrowError>)
        requires
            old(self).wf(),
            balance_of(old(self)@, (depositor, asset)) + amount <= u64::MAX,
        ensures
            final(self).wf(),
            r == deposit_outcome(*old(source), *old(vault), depositor, asset, amount),
            r is Ok ==> final(self)@ == old(self)@.insert(
                (depositor, asset),
                (balance_of(old(self)@, (depositor, asset)) + amount) as u64,
            ),
            r is Ok ==> *final(source) == (TokenAccount {
                balance: (old(source).balance - amount) as u64,
                ..*old(source)
            }),
            r is Ok ==> *final(vault) == (TokenAccount {
                balance: (old(vault).balance + amount) as u64,
                ..*old(vault)
            }),
            r is Err ==> final(self)@ == old(self)@ && *final(source) == *old(source)
                && *final(vault) == *old(vault),
    {
        if amount == 0 {
            return Err(EscrowError::InvalidAmount);
        }
        if source.asset != asset || vault.asset != asset {
            return Err(EscrowError::AssetMismatch);
        }
        if source.authority != ControlAddress::Keyed(depositor) {
            return Err(EscrowError::AccountOwnershipMismatch);
        }
        let (address, nonce) = match crate::derivation::derive(ESCROW_TAG, depositor, asset) {
            Ok(p) => p,
            Err(e) => {
                return Err(e);
            },
        };
        if vault.authority != ControlAddress::Derived(address) {
            return Err(EscrowError::AccountOwnershipMismatch);
        }
        let idx_opt = self.find_entry(depositor, asset);
        proof {
            lemma_map_of_contains_key(self.entries@, (depositor, asset));
        }
        match transfer(source, vault, amount, TransferAuthority::Signature(depositor)) {
            Ok(_) => {},
            Err(e) => {
                return Err(EscrowError::TransferFailure(e));
            },
        }
        match idx_opt {
            Some(i) => {
                proof {
                    lemma_map_of_value(self.entries@, i as int);
                }
                let updated = EscrowAccount {
                    amount: self.entries[i].amount + amount,
                    ..self.entries[i]
                };
                proof {
                    lemma_map_of_update(self.entries@, i as int, updated);
                }
                self.entries[i] = updated;
                proof {
                    assert(keys_distinct(self.entries@)) by {
                        assert(forall|p: int|
                            0 <= p < self.entries@.len() && p != i ==> self.entries@[p] == old(
                                self,
                            ).entries@[p]);
                    }
                }
            },
            None => {
                let entry = EscrowAccount {
                    owner: depositor,
                    asset: asset,
                    amount: amount,
                    derivation_nonce: nonce,
                };
                proof {
                    lemma_map_of_push(self.entries@, entry);
                }
                self.entries.push(entry);
                proof {
                    assert(keys_distinct(self.entries@)) by {
                        assert(forall|p: int|
                            0 <= p < self.entries@.len() - 1 ==> self.entries@[p] == old(
                                self,
                            ).entries@[p]);
                    }
                }
            },
        }
        Ok(())
    }

    /// Withdraw the full balance held for (depositor, asset) from the vault
    /// into the depositor's own `destination` account, and destroy the
    /// entry. Only the entry's owner can withdraw: any other caller fails
    /// with `Unauthorized` and nothing changes. Authority over the vault is
    /// re-proved by recomputing the derivation with the entry's stored
    /// nonce, never by a signature.
    pub fn withdraw(
        &mut self,
        caller: u64,
        depositor: u64,
        vault: &mut TokenAccount,
        destination: &mut TokenAccount,
        asset: u64,
    ) -> (r: Result<(), EscrowError>)
        requires
            old(self).wf(),
        ensures
            final(self).wf(),
            r == withdraw_outcome(
                old(self)@,
                caller,
                depositor,
                *old(vault),
                *old(destination),
                asset,
            ),
            r is Ok ==> final(self)@ == old(self)@.remove((depositor, asset)),
            r is Ok ==> *final(vault) == (TokenAccount {
                balance: (old(vault).balance - old(self)@[(depositor, asset)]) as u64,
                ..*old(vault)
            }),
            r is Ok ==> *final(destination) == (TokenAccount {
                balance: (old(destination).balance + old(self)@[(depositor, asset)]) as u64,
                ..*old(destination)
            }),
            r is Err ==> final(self)@ == old(self)@ && *final(vault) == *old(vault)
                && *final(destination) == *old(destination),
    {
        proof {
            lemma_map_of_contains_key(self.entries@, (depositor, asset));
        }
        let idx = match self.find_entry(depositor, asset) {
            Some(i) => i,
            None => {
                return Err(EscrowError::NoSuchEntry);
            },
        };
        proof {
            lemma_map_of_value(self.entries@, idx as int);
        }
        let entry = self.entries[idx];
        if caller != entry.owner {
            return Err(EscrowError::Unauthorized);
        }
        if vault.asset != asset || destination.asset != asset {
            return Err(EscrowError::AssetMismatch);
        }
        if destination.authority != ControlAddress::Keyed(depositor) {
            return Err(EscrowError::AccountOwnershipMismatch);
        }
        let authority_proof = match assert_authority(
            ESCROW_TAG,
            depositor,
            asset,
            entry.derivation_nonce,
        ) {
            Ok(p) => p,
            Err(e) => {
                // Unreachable: a well-formed entry stores exactly the nonce
                // its own derivation discovers, so reasserting it succeeds.
                proof {
                    assert(entry_wf(entry));
                    assert(false);
                }
                return Err(e);
            },
        };
        let derived_address = authority_proof.address_value();
        if vault.authority != ControlAddress::Derived(derived_address) {
            return Err(EscrowError::AccountOwnershipMismatch);
        }
        let amount = entry.amount;
        match transfer(vault, destination, amount, TransferAuthority::Proof(authority_proof)) {
            Ok(_) => {},
            Err(e) => {
                return Err(EscrowError::TransferFailure(e));
            },
        }
        proof {
            lemma_map_of_remove(self.entries@, idx as int);
        }
        self.entries.remove(idx);
        proof {
            assert(keys_distinct(self.entries@)) by {
                assert(forall|p: int|
                    0 <= p < self.entries@.len() ==> self.entries@[p] == (if p < idx as int {
                        old(self).entries@[p]
                    } else {
                        old(self).entries@[p + 1]
                    }));
            }
            assert(forall|p: int|
                0 <= p < self.entries@.len() ==> entry_wf(#[trigger] self.entries@[p])) by {
                assert(forall|p: int|
                    0 <= p < self.entries@.len() ==> self.entries@[p] == (if p < idx as int {
                        old(self).entries@[p]
                    } else {
                        old(self).entries@[p + 1]
                    }));
            }
        }
        Ok(())
    }
}

/// Law: only the entry's owner can withdraw. For a live entry, any caller
/// other than the depositor who owns it is refused with `Unauthorized` —
/// and, by the error contract of [`EscrowLedger::withdraw`], nothing
/// changes.
pub proof fn lemma_only_owner_withdraws(
    entries: Map<(u64, u64), u64>,
    caller: u64,
    depositor: u64,
    vault: TokenAccount,
    destination: TokenAccount,
    asset: u64,
)
    requires
        entries.contains_key((depositor, asset)),
        caller != depositor,
    ensures
        withdraw_outcome(entries, caller, depositor, vault, destination, asset) == Err::<
            (),
            EscrowError,
        >(EscrowError::Unauthorized),
{
}

/// Law: mismatched asset identifiers always fail with `AssetMismatch`. A
/// nonzero deposit from an account the depositor owns, or a withdrawal of a
/// live entry by its owner, is refused the moment any involved account
/// carries another asset type — and, by the error contracts of
/// [`EscrowLedger::deposit`] and [`EscrowLedger::withdraw`], all balances
/// stay unchanged.
pub proof fn lemma_asset_mismatch_rejected(
    entries: Map<(u64, u64), u64>,
    depositor: u64,
    source: TokenAccount,
    vault: TokenAccount,
    destination: TokenAccount,
    asset: u64,
    amount: u64,
)
    ensures
        amount > 0 && (source.asset != asset || vault.asset != asset) ==> deposit_outcome(
            source,
            vault,
            depositor,
            asset,
            amount,
        ) == Err::<(), EscrowError>(EscrowError::AssetMismatch),
        entries.contains_key((depositor, asset)) && (vault.asset != asset || destination.asset
            != asset) ==> withdraw_outcome(entries, depositor, depositor, vault, destination, asset)
            == Err::<(), EscrowError>(EscrowError::AssetMismatch),
{
}

/// The total of a sequence of deposit amounts.
pub open spec fn sum_of(amounts: Seq<u64>) -> int
    decreases amounts.len(),
{
    if amounts.len() == 0 {
        0
    } else {
        sum_of(amounts.drop_last()) + amounts.last()
    }
}

/// A sum of unsigned amounts is never negative.
pub proof fn lemma_sum_of_nonneg(amounts: Seq<u64>)
    ensures
        0 <= sum_of(amounts),
    decreases amounts.len(),
{
    if amounts.len() > 0 {
        lemma_sum_of_nonneg(amounts.drop_last());
    }
}

/// The abstract effect of a sequence of successful deposits into one key:
/// each deposit merges its amount into the balance held for that key,
/// exactly as the `Ok` contract of [`EscrowLedger::deposit`] states.
pub open spec fn apply_deposits(
    m: Map<(u64, u64), u64>,
    k: (u64, u64),
    amounts: Seq<u64>,
) -> Map<(u64, u64), u64>
    decreases amounts.len(),
{
    if amounts.len() == 0 {
        m
    } else {
        let prev = apply_deposits(m, k, amounts.drop_last());
        prev.insert(k, (balance_of(prev, k) + amounts.last()) as u64)
    }
}

/// One successful deposit changes the abstract ledger exactly as one step of
/// [`apply_deposits`] does.
pub proof fn lemma_deposit_step(m: Map<(u64, u64), u64>, k: (u64, u64), amount: u64)
    ensures
        apply_deposits(m, k, seq![amount]) == m.insert(k, (balance_of(m, k) + amount) as u64),
{
    assert(seq![amount].drop_last() =~= Seq::<u64>::empty());
    assert(apply_deposits(m, k, Seq::<u64>::empty()) == m);
    assert(seq![amount].last() == amount);
}

/// Law: for any sequence of deposits into the same (owner, asset) key whose
/// total fits the 64-bit balance, the resulting entry balance is exactly the
/// sum of the deposited amounts, on top of whatever the entry held before.
pub proof fn lemma_deposits_accumulate(m: Map<(u64, u64), u64>, k: (u64, u64), amounts: Seq<u64>)
    requires
        balance_of(m, k) + sum_of(amounts) <= u64::MAX,
    ensures
        balance_of(apply_deposits(m, k, amounts), k) == balance_of(m, k) + sum_of(amounts),
        amounts.len() > 0 ==> apply_deposits(m, k, amounts).contains_key(k),
    decreases amounts.len(),
{
    if amounts.len() > 0 {
        lemma_sum_of_nonneg(amounts.drop_last());
        lemma_deposits_accumulate(m, k, amounts.drop_last());
    }
}

} // verus!
