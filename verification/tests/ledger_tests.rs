use escrow::account::ControlAddress;
use escrow::account::TokenAccount;
use escrow::derivation::ESCROW_TAG;
use escrow::errors::EscrowError;
use escrow::errors::TransferError;
use escrow::ledger::EscrowLedger;

const ALICE: u64 = 11;
const EVE: u64 = 13;
const ASSET_A: u64 = 1001;
const ASSET_B: u64 = 1002;

fn user_account(owner: u64, asset: u64, balance: u64) -> TokenAccount {
    TokenAccount { authority: ControlAddress::Keyed(owner), asset, balance }
}

fn vault_account(owner: u64, asset: u64) -> TokenAccount {
    let (address, _nonce) = escrow::derivation::derive(ESCROW_TAG, owner, asset).unwrap();
    TokenAccount { authority: ControlAddress::Derived(address), asset, balance: 0 }
}

#[test]
fn deposit_creates_and_accumulates() {
    let mut ledger = EscrowLedger::new();
    let mut source = user_account(ALICE, ASSET_A, 1_000);
    let mut vault = vault_account(ALICE, ASSET_A);

    assert_eq!(ledger.entry_amount(ALICE, ASSET_A), None);
    assert_eq!(ledger.deposit(ALICE, &mut source, &mut vault, ASSET_A, 100), Ok(()));
    assert_eq!(ledger.entry_amount(ALICE, ASSET_A), Some(100));
    assert_eq!(source.balance, 900);
    assert_eq!(vault.balance, 100);

    assert_eq!(ledger.deposit(ALICE, &mut source, &mut vault, ASSET_A, 50), Ok(()));
    assert_eq!(ledger.entry_amount(ALICE, ASSET_A), Some(150));
    assert_eq!(source.balance, 850);
    assert_eq!(vault.balance, 150);
}

#[test]
fn withdraw_moves_full_balance_and_destroys_entry() {
    let mut ledger = EscrowLedger::new();
    let mut source = user_account(ALICE, ASSET_A, 1_000);
    let mut vault = vault_account(ALICE, ASSET_A);
    assert_eq!(ledger.deposit(ALICE, &mut source, &mut vault, ASSET_A, 100), Ok(()));
    assert_eq!(ledger.deposit(ALICE, &mut source, &mut vault, ASSET_A, 50), Ok(()));

    let mut destination = user_account(ALICE, ASSET_A, 7);
    assert_eq!(ledger.withdraw(ALICE, ALICE, &mut vault, &mut destination, ASSET_A), Ok(()));
    assert_eq!(destination.balance, 157);
    assert_eq!(vault.balance, 0);
    assert_eq!(ledger.entry_amount(ALICE, ASSET_A), None);

    assert_eq!(
        ledger.withdraw(ALICE, ALICE, &mut vault, &mut destination, ASSET_A),
        Err(EscrowError::NoSuchEntry)
    );

    // A fresh deposit after the entry was destroyed starts over: prior
    // history is not retained.
    assert_eq!(ledger.deposit(ALICE, &mut source, &mut vault, ASSET_A, 30), Ok(()));
    assert_eq!(ledger.entry_amount(ALICE, ASSET_A), Some(30));
}

#[test]
fn only_owner_can_withdraw() {
    let mut ledger = EscrowLedger::new();
    let mut source = user_account(ALICE, ASSET_A, 1_000);
    let mut vault = vault_account(ALICE, ASSET_A);
    assert_eq!(ledger.deposit(ALICE, &mut source, &mut vault, ASSET_A, 100), Ok(()));

    let mut destination = user_account(ALICE, ASSET_A, 0);
    let vault_before = vault;
    let destination_before = destination;
    assert_eq!(
        ledger.withdraw(EVE, ALICE, &mut vault, &mut destination, ASSET_A),
        Err(EscrowError::Unauthorized)
    );
    assert_eq!(ledger.entry_amount(ALICE, ASSET_A), Some(100));
    assert_eq!(vault, vault_before);
    assert_eq!(destination, destination_before);
}

#[test]
fn deposit_of_zero_is_rejected() {
    let mut ledger = EscrowLedger::new();
    let mut source = user_account(ALICE, ASSET_A, 1_000);
    let mut vault = vault_account(ALICE, ASSET_A);
    assert_eq!(
        ledger.deposit(ALICE, &mut source, &mut vault, ASSET_A, 0),
        Err(EscrowError::InvalidAmount)
    );
    assert_eq!(ledger.entry_amount(ALICE, ASSET_A), None);
    assert_eq!(source.balance, 1_000);
    assert_eq!(vault.balance, 0);
}

#[test]
fn deposit_with_mismatched_assets_is_rejected() {
    let mut ledger = EscrowLedger::new();
    let mut source = user_account(ALICE, ASSET_B, 1_000);
    let mut vault = vault_account(ALICE, ASSET_A);
    assert_eq!(
        ledger.deposit(ALICE, &mut source, &mut vault, ASSET_A, 100),
        Err(EscrowError::AssetMismatch)
    );
    assert_eq!(ledger.entry_amount(ALICE, ASSET_A), None);
    assert_eq!(source.balance, 1_000);
    assert_eq!(vault.balance, 0);
}

#[test]
fn withdraw_with_mismatched_assets_is_rejected() {
    let mut ledger = EscrowLedger::new();
    let mut source = user_account(ALICE, ASSET_A, 1_000);
    let mut vault = vault_account(ALICE, ASSET_A);
    assert_eq!(ledger.deposit(ALICE, &mut source, &mut vault, ASSET_A, 100), Ok(()));

    let mut destination = user_account(ALICE, ASSET_B, 0);
    assert_eq!(
        ledger.withdraw(ALICE, ALICE, &mut vault, &mut destination, ASSET_A),
        Err(EscrowError::AssetMismatch)
    );
    assert_eq!(ledger.entry_amount(ALICE, ASSET_A), Some(100));
    assert_eq!(vault.balance, 100);
    assert_eq!(destination.balance, 0);
}

#[test]
fn deposit_from_foreign_source_is_rejected() {
    let mut ledger = EscrowLedger::new();
    let mut source = user_account(EVE, ASSET_A, 1_000);
    let mut vault = vault_account(ALICE, ASSET_A);
    assert_eq!(
        ledger.deposit(ALICE, &mut source, &mut vault, ASSET_A, 100),
        Err(EscrowError::AccountOwnershipMismatch)
    );
    assert_eq!(source.balance, 1_000);
    assert_eq!(vault.balance, 0);
}

#[test]
fn deposit_into_wrong_vault_is_rejected() {
    let mut ledger = EscrowLedger::new();
    let mut source = user_account(ALICE, ASSET_A, 1_000);
    // A vault derived for another depositor does not match Alice's derived
    // authority.
    let mut vault = vault_account(EVE, ASSET_A);
    assert_eq!(
        ledger.deposit(ALICE, &mut source, &mut vault, ASSET_A, 100),
        Err(EscrowError::AccountOwnershipMismatch)
    );

    // Neither does a vault controlled by a plain key.
    let mut keyed_vault = user_account(ALICE, ASSET_A, 0);
    assert_eq!(
        ledger.deposit(ALICE, &mut source, &mut keyed_vault, ASSET_A, 100),
        Err(EscrowError::AccountOwnershipMismatch)
    );
    assert_eq!(ledger.entry_amount(ALICE, ASSET_A), None);
}

#[test]
fn deposit_beyond_source_balance_fails_as_transfer_failure() {
    let mut ledger = EscrowLedger::new();
    let mut source = user_account(ALICE, ASSET_A, 30);
    let mut vault = vault_account(ALICE, ASSET_A);
    assert_eq!(
        ledger.deposit(ALICE, &mut source, &mut vault, ASSET_A, 100),
        Err(EscrowError::TransferFailure(TransferError::InsufficientBalance))
    );
    assert_eq!(ledger.entry_amount(ALICE, ASSET_A), None);
    assert_eq!(source.balance, 30);
    assert_eq!(vault.balance, 0);
}

#[test]
fn deposit_overflowing_vault_fails_as_transfer_failure() {
    let mut ledger = EscrowLedger::new();
    let mut source = user_account(ALICE, ASSET_A, 1_000);
    let mut vault = vault_account(ALICE, ASSET_A);
    vault.balance = u64::MAX - 10;
    assert_eq!(
        ledger.deposit(ALICE, &mut source, &mut vault, ASSET_A, 100),
        Err(EscrowError::TransferFailure(TransferError::BalanceOverflow))
    );
    assert_eq!(source.balance, 1_000);
    assert_eq!(vault.balance, u64::MAX - 10);
}

#[test]
fn entries_for_different_assets_are_independent() {
    let mut ledger = EscrowLedger::new();
    let mut source_a = user_account(ALICE, ASSET_A, 500);
    let mut vault_a = vault_account(ALICE, ASSET_A);
    let mut source_b = user_account(ALICE, ASSET_B, 500);
    let mut vault_b = vault_account(ALICE, ASSET_B);

    assert_eq!(ledger.deposit(ALICE, &mut source_a, &mut vault_a, ASSET_A, 100), Ok(()));
    assert_eq!(ledger.deposit(ALICE, &mut source_b, &mut vault_b, ASSET_B, 200), Ok(()));
    assert_eq!(ledger.entry_amount(ALICE, ASSET_A), Some(100));
    assert_eq!(ledger.entry_amount(ALICE, ASSET_B), Some(200));

    let mut destination = user_account(ALICE, ASSET_B, 0);
    assert_eq!(ledger.withdraw(ALICE, ALICE, &mut vault_b, &mut destination, ASSET_B), Ok(()));
    assert_eq!(ledger.entry_amount(ALICE, ASSET_B), None);
    assert_eq!(ledger.entry_amount(ALICE, ASSET_A), Some(100));
    assert_eq!(destination.balance, 200);
}
