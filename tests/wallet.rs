use anchor_lang::prelude::Pubkey;
use moon_wallet::seed::process_credential_id_seed;
use moon_wallet::wallet::{
    initialize_multisig, multisig_space, AccountStore, InitializeMultisig, WalletError,
};

fn ctx(payer: u8, bump: u8) -> InitializeMultisig {
    InitializeMultisig { fee_payer: Pubkey::new_from_array([payer; 32]), bump }
}

#[test]
fn zero_threshold_is_invalid_config() {
    let mut store = AccountStore::new();
    let r = initialize_multisig(&mut store, &ctx(1, 255), 0, "cred".to_string());
    assert_eq!(r, Err(WalletError::InvalidConfig));
    assert_eq!(store.len(), 0);
}

#[test]
fn empty_credential_is_invalid_config() {
    let mut store = AccountStore::new();
    let r = initialize_multisig(&mut store, &ctx(1, 255), 2, String::new());
    assert_eq!(r, Err(WalletError::InvalidConfig));
    assert_eq!(store.len(), 0);
}

#[test]
fn credential_of_65_bytes_is_too_long() {
    let mut store = AccountStore::new();
    let r = initialize_multisig(&mut store, &ctx(1, 255), 1, "x".repeat(65));
    assert_eq!(r, Err(WalletError::NameTooLong));
    assert_eq!(store.len(), 0);
}

#[test]
fn threshold_is_checked_before_length() {
    let mut store = AccountStore::new();
    let r = initialize_multisig(&mut store, &ctx(1, 255), 0, "x".repeat(65));
    assert_eq!(r, Err(WalletError::InvalidConfig));
}

#[test]
fn credential_of_64_bytes_initializes() {
    let mut store = AccountStore::new();
    let id = "k".repeat(64);
    let r = initialize_multisig(&mut store, &ctx(9, 253), 1, id.clone());
    assert_eq!(r, Ok(()));
    assert_eq!(store.len(), 1);
    let w = store.find(&id).unwrap();
    assert_eq!(w.threshold, 1);
    assert_eq!(w.guardian_count, 0);
    assert_eq!(w.recovery_nonce, 0);
    assert_eq!(w.transaction_nonce, 0);
    assert_eq!(w.last_transaction_timestamp, 0);
    assert_eq!(w.bump, 253);
    assert_eq!(w.owner, Pubkey::new_from_array([9; 32]));
    assert_eq!(w.credential_id, id);
    let e = store.entry(0);
    assert_eq!(e.seed, process_credential_id_seed(&id));
    assert_eq!(e.space, 8 + 1 + 1 + 8 + 1 + 8 + 8 + 32 + 4 + 64);
}

#[test]
fn multi_byte_credential_counts_bytes() {
    let mut store = AccountStore::new();
    let id = "\u{e9}".repeat(33);
    assert_eq!(id.len(), 66);
    let r = initialize_multisig(&mut store, &ctx(1, 255), 1, id);
    assert_eq!(r, Err(WalletError::NameTooLong));
}

#[test]
fn second_initialization_is_rejected() {
    let mut store = AccountStore::new();
    let id = "credential-abc".to_string();
    assert_eq!(initialize_multisig(&mut store, &ctx(1, 250), 2, id.clone()), Ok(()));
    let r = initialize_multisig(&mut store, &ctx(2, 251), 5, id.clone());
    assert_eq!(r, Err(WalletError::AlreadyInitialized));
    assert_eq!(store.len(), 1);
    let w = store.find(&id).unwrap();
    assert_eq!(w.threshold, 2);
    assert_eq!(w.bump, 250);
    assert_eq!(w.owner, Pubkey::new_from_array([1; 32]));
}

#[test]
fn second_initialization_with_zero_threshold_fails() {
    let mut store = AccountStore::new();
    assert_eq!(initialize_multisig(&mut store, &ctx(1, 250), 2, "id".to_string()), Ok(()));
    let r = initialize_multisig(&mut store, &ctx(1, 250), 0, "id".to_string());
    assert_eq!(r, Err(WalletError::InvalidConfig));
    assert_eq!(store.len(), 1);
}

#[test]
fn folded_credentials_share_an_account_slot() {
    let mut store = AccountStore::new();
    let a = "abcdefghijklmnopqrstuvwxyz0123".to_string();
    let mut bytes = a.clone().into_bytes();
    bytes[1] ^= 0x03;
    bytes[25] ^= 0x03;
    let b = String::from_utf8(bytes).unwrap();
    assert_ne!(a, b);
    assert_eq!(initialize_multisig(&mut store, &ctx(1, 255), 1, a.clone()), Ok(()));
    let r = initialize_multisig(&mut store, &ctx(2, 255), 1, b.clone());
    assert_eq!(r, Err(WalletError::AlreadyInitialized));
    assert_eq!(store.find(&b).unwrap().credential_id, a);
}

#[test]
fn distinct_credentials_get_distinct_accounts() {
    let mut store = AccountStore::new();
    assert_eq!(initialize_multisig(&mut store, &ctx(1, 255), 1, "alice".to_string()), Ok(()));
    assert_eq!(initialize_multisig(&mut store, &ctx(2, 254), 3, "bob".to_string()), Ok(()));
    assert_eq!(store.len(), 2);
    assert_eq!(store.position(&process_credential_id_seed("bob")), Some(1));
    assert!(store.find("carol").is_none());
}

#[test]
fn space_covers_header_prefix_and_bytes() {
    assert_eq!(multisig_space(0), 71);
    assert_eq!(multisig_space(10), 81);
    assert_eq!(multisig_space(64), 135);
}
