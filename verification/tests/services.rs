use reward_program_dapp::address::Address;
use reward_program_dapp::derivation::derive_holding_address;
use reward_program_dapp::ledger::{Ledger, LedgerError};
use reward_program_dapp::store::{Store, StoreError};

fn addr(seed: u8) -> Address {
    Address::new([seed; 32])
}

#[test]
fn create_mint_is_write_once() {
    let mut ledger = Ledger::new();
    let payer = addr(1);
    let mint = addr(3);
    ledger.create_mint(&mint, 0, &payer, Some(payer)).unwrap();
    let again = ledger.create_mint(&mint, 0, &payer, Some(payer));
    assert_eq!(again.unwrap_err(), LedgerError::AlreadyInitialized);
}

#[test]
fn holding_account_creation_is_idempotent() {
    let mut ledger = Ledger::new();
    let payer = addr(1);
    let owner = addr(2);
    let mint = addr(3);
    ledger.create_mint(&mint, 0, &payer, None).unwrap();

    let first = ledger.create_holding_account(&owner, &mint).unwrap();
    assert_eq!(first, derive_holding_address(&owner, &mint));
    ledger.mint_to(&mint, &first, &payer, 1).unwrap();

    // Re-entrant provisioning is a no-op: same address, balance kept.
    let second = ledger.create_holding_account(&owner, &mint).unwrap();
    assert_eq!(second, first);
    assert_eq!(ledger.balance(&first), Some(1));
}

#[test]
fn holding_account_needs_a_mint() {
    let mut ledger = Ledger::new();
    let refused = ledger.create_holding_account(&addr(2), &addr(3));
    assert_eq!(refused.unwrap_err(), LedgerError::UnknownMint);
}

#[test]
fn mint_to_checks_everything() {
    let mut ledger = Ledger::new();
    let payer = addr(1);
    let owner = addr(2);
    let mint = addr(3);
    let other_mint = addr(4);
    ledger.create_mint(&mint, 0, &payer, None).unwrap();
    ledger.create_mint(&other_mint, 0, &payer, None).unwrap();
    let holding = ledger.create_holding_account(&owner, &mint).unwrap();

    let unknown = ledger.mint_to(&addr(9), &holding, &payer, 1);
    assert_eq!(unknown.unwrap_err(), LedgerError::UnknownMint);

    let usurped = ledger.mint_to(&mint, &holding, &addr(9), 1);
    assert_eq!(usurped.unwrap_err(), LedgerError::AuthorityMismatch);

    let nowhere = ledger.mint_to(&mint, &addr(9), &payer, 1);
    assert_eq!(nowhere.unwrap_err(), LedgerError::UnknownAccount);

    let crossed = ledger.mint_to(&other_mint, &holding, &payer, 1);
    assert_eq!(crossed.unwrap_err(), LedgerError::AccountMismatch);

    ledger.mint_to(&mint, &holding, &payer, 1).unwrap();
    let overflowing = ledger.mint_to(&mint, &holding, &payer, u64::MAX);
    assert_eq!(overflowing.unwrap_err(), LedgerError::BalanceOverflow);
    assert_eq!(ledger.balance(&holding), Some(1));
}

#[test]
fn store_allocation_is_write_once() {
    let mut store = Store::new();
    let payer = addr(1);
    let slot = addr(5);
    store.allocate(&slot, 4, &payer).unwrap();
    let again = store.allocate(&slot, 4, &payer);
    assert_eq!(again.unwrap_err(), StoreError::AlreadyAllocated);
}

#[test]
fn store_zero_fills_and_bounds_writes() {
    let mut store = Store::new();
    let payer = addr(1);
    let slot = addr(5);
    store.allocate(&slot, 4, &payer).unwrap();
    assert_eq!(store.read(&slot), Some(vec![0u8, 0, 0, 0]));

    let missing = store.write_record(&addr(6), &vec![1u8]);
    assert_eq!(missing.unwrap_err(), StoreError::UnknownRecord);

    let oversized = store.write_record(&slot, &vec![1u8; 5]);
    assert_eq!(oversized.unwrap_err(), StoreError::RecordTooLarge);

    store.write_record(&slot, &vec![7u8, 8]).unwrap();
    assert_eq!(store.read(&slot), Some(vec![7u8, 8, 0, 0]));
    assert_eq!(store.read(&addr(6)), None);
}
