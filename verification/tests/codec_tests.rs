use sha2::Digest;
use vault_pipeline::addr::Address;
use vault_pipeline::codec::{
    anchor_discriminator, decode_account_state, encode_call_data, encode_deposit_ix,
    encode_initialize_ix, encode_vault_state, encode_withdraw_ix, system_program_id, CallName,
    DecodeError,
};

fn addr(byte: u8) -> Address {
    Address::from_bytes(vec![byte; 32]).unwrap()
}

fn sha256_prefix(preimage: &[u8]) -> Vec<u8> {
    sha2::Sha256::digest(preimage)[..8].to_vec()
}

#[test]
fn discriminator_initialize_matches_namespaced_hash() {
    assert_eq!(
        anchor_discriminator(CallName::Initialize),
        sha256_prefix(b"global:initialize")
    );
}

#[test]
fn discriminator_deposit_matches_namespaced_hash() {
    assert_eq!(
        anchor_discriminator(CallName::Deposit),
        sha256_prefix(b"global:deposit")
    );
}

#[test]
fn discriminator_withdraw_matches_namespaced_hash() {
    assert_eq!(
        anchor_discriminator(CallName::Withdraw),
        sha256_prefix(b"global:withdraw")
    );
}

#[test]
fn encode_call_data_is_deterministic() {
    let args = vec![42u64, 7u64];
    let first = encode_call_data(CallName::Deposit, &args);
    let second = encode_call_data(CallName::Deposit, &args);
    assert_eq!(first, second);
}

#[test]
fn encode_call_data_appends_little_endian_args() {
    let args = vec![0x0102030405060708u64];
    let data = encode_call_data(CallName::Withdraw, &args);
    assert_eq!(data.len(), 16);
    assert_eq!(&data[..8], &sha256_prefix(b"global:withdraw")[..]);
    assert_eq!(&data[8..], &0x0102030405060708u64.to_le_bytes()[..]);
}

#[test]
fn encode_initialize_ix_has_tag_only_payload() {
    let ix = encode_initialize_ix(&addr(1), &addr(2), &addr(3));
    assert_eq!(ix.data, sha256_prefix(b"global:initialize"));
    assert_eq!(ix.program_id.as_bytes(), &vec![1u8; 32]);
}

#[test]
fn encode_deposit_ix_accounts_and_payload() {
    let ix = encode_deposit_ix(&addr(1), &addr(2), &addr(3), 500);
    let mut expected = sha256_prefix(b"global:deposit");
    expected.extend_from_slice(&500u64.to_le_bytes());
    assert_eq!(ix.data, expected);
    assert_eq!(ix.accounts.len(), 3);
    assert_eq!(ix.accounts[0].addr.as_bytes(), &vec![2u8; 32]);
    assert!(!ix.accounts[0].is_signer);
    assert!(ix.accounts[0].is_writable);
    assert_eq!(ix.accounts[1].addr.as_bytes(), &vec![3u8; 32]);
    assert!(ix.accounts[1].is_signer);
    assert!(ix.accounts[1].is_writable);
    assert_eq!(ix.accounts[2].addr.as_bytes(), &vec![0u8; 32]);
    assert!(!ix.accounts[2].is_signer);
    assert!(!ix.accounts[2].is_writable);
}

#[test]
fn encode_withdraw_ix_payload() {
    let ix = encode_withdraw_ix(&addr(1), &addr(2), &addr(3), 1);
    let mut expected = sha256_prefix(b"global:withdraw");
    expected.extend_from_slice(&1u64.to_le_bytes());
    assert_eq!(ix.data, expected);
    assert_eq!(ix.accounts.len(), 3);
}

#[test]
fn encode_transfer_ix_matches_system_program_layout() {
    let from = addr(1);
    let to = addr(2);
    let ix = vault_pipeline::codec::encode_transfer_ix(&from, &to, 999);
    assert_eq!(ix.program_id.as_bytes(), &vec![0u8; 32]);
    let mut expected = 2u32.to_le_bytes().to_vec();
    expected.extend_from_slice(&999u64.to_le_bytes());
    assert_eq!(ix.data, expected);
    assert_eq!(ix.accounts.len(), 2);
    assert!(ix.accounts[0].is_signer && ix.accounts[0].is_writable);
    assert!(!ix.accounts[1].is_signer && ix.accounts[1].is_writable);
}

#[test]
fn system_program_id_is_all_zero() {
    assert_eq!(system_program_id().as_bytes(), &vec![0u8; 32]);
}

#[test]
fn vault_state_round_trips() {
    let owner = addr(9);
    let bytes = encode_vault_state(&owner, 12345);
    assert_eq!(bytes.len(), 48);
    let vault = decode_account_state(&bytes).unwrap();
    assert_eq!(vault.owner.as_bytes(), owner.as_bytes());
    assert_eq!(vault.balance, 12345);
}

#[test]
fn vault_state_round_trips_extremes() {
    for balance in [0u64, 1, u64::MAX] {
        let owner = addr(0xAB);
        let vault = decode_account_state(&encode_vault_state(&owner, balance)).unwrap();
        assert_eq!(vault.balance, balance);
        assert_eq!(vault.owner.as_bytes(), owner.as_bytes());
    }
}

#[test]
fn decode_ignores_kind_tag_content() {
    let owner = addr(4);
    let mut bytes = encode_vault_state(&owner, 77);
    for b in bytes.iter_mut().take(8) {
        *b = 0xFF;
    }
    let vault = decode_account_state(&bytes).unwrap();
    assert_eq!(vault.balance, 77);
}

#[test]
fn decode_rejects_short_input() {
    let bytes = vec![0u8; 47];
    assert_eq!(decode_account_state(&bytes).unwrap_err(), DecodeError::TooShort);
}

#[test]
fn decode_rejects_trailing_bytes() {
    let bytes = vec![0u8; 49];
    assert_eq!(
        decode_account_state(&bytes).unwrap_err(),
        DecodeError::TrailingBytes
    );
}

#[test]
fn address_rejects_wrong_length() {
    assert!(Address::from_bytes(vec![1u8; 31]).is_err());
    assert!(Address::from_bytes(vec![1u8; 33]).is_err());
    assert!(Address::from_bytes(vec![1u8; 32]).is_ok());
}

#[test]
fn address_equality_is_by_content() {
    let a = addr(5);
    let b = Address::from_bytes(vec![5u8; 32]).unwrap();
    let c = addr(6);
    assert!(a.eq_addr(&b));
    assert!(!a.eq_addr(&c));
}
