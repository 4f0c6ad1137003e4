use solana_sdk::signature::{Keypair, Signer};
use vault_pipeline::addr::Address;
use vault_pipeline::codec::encode_deposit_ix;
use vault_pipeline::pda::derive_vault_pda;
use vault_pipeline::txn::{build, serialize_unsigned, BuildError, ChainCheckpoint};

fn addr_of(kp: &Keypair) -> Address {
    Address::from_bytes(kp.pubkey().to_bytes().to_vec()).unwrap()
}

fn addr(byte: u8) -> Address {
    Address::from_bytes(vec![byte; 32]).unwrap()
}

fn checkpoint(byte: u8) -> ChainCheckpoint {
    ChainCheckpoint::from_bytes(vec![byte; 32]).unwrap()
}

#[test]
fn checkpoint_rejects_wrong_length() {
    assert!(ChainCheckpoint::from_bytes(vec![1u8; 31]).is_err());
    assert!(ChainCheckpoint::from_bytes(vec![1u8; 32]).is_ok());
}

#[test]
fn build_signs_once_per_required_signer() {
    let user = Keypair::new();
    let user_addr = addr_of(&user);
    let ix = encode_deposit_ix(&addr(1), &addr(2), &user_addr, 50);
    let signers = vec![user];
    let tx = build(vec![ix], &user_addr, &checkpoint(3), &signers).unwrap();
    // required signers: the fee payer, which is also the one signer-marked
    // account, so exactly one signature
    assert_eq!(tx.signatures.len(), 1);
    assert!(tx.signatures[0].signer.eq_addr(&user_addr));
    assert_eq!(tx.signatures[0].sig.len(), 64);
    assert_eq!(tx.instructions.len(), 1);
}

#[test]
fn build_counts_distinct_signers_once() {
    let user = Keypair::new();
    let user_addr = addr_of(&user);
    // two instructions marking the same user as signer: still one signature
    let ix1 = encode_deposit_ix(&addr(1), &addr(2), &user_addr, 10);
    let ix2 = encode_deposit_ix(&addr(1), &addr(2), &user_addr, 20);
    let signers = vec![user];
    let tx = build(vec![ix1, ix2], &user_addr, &checkpoint(3), &signers).unwrap();
    assert_eq!(tx.signatures.len(), 1);
}

#[test]
fn build_adds_fee_payer_even_if_not_marked() {
    let payer = Keypair::new();
    let user = Keypair::new();
    let payer_addr = addr_of(&payer);
    let user_addr = addr_of(&user);
    let ix = encode_deposit_ix(&addr(1), &addr(2), &user_addr, 10);
    let signers = vec![payer, user];
    let tx = build(vec![ix], &payer_addr, &checkpoint(9), &signers).unwrap();
    // fee payer first, then the signer-marked user account
    assert_eq!(tx.signatures.len(), 2);
    assert!(tx.signatures[0].signer.eq_addr(&payer_addr));
    assert!(tx.signatures[1].signer.eq_addr(&user_addr));
    assert_eq!(tx.signatures[0].sig.len(), 64);
    assert_eq!(tx.signatures[1].sig.len(), 64);
}

#[test]
fn built_signature_verifies_over_the_unsigned_body() {
    let user = Keypair::new();
    let user_addr = addr_of(&user);
    let ix = encode_deposit_ix(&addr(1), &addr(2), &user_addr, 50);
    let signers = vec![user];
    let tx = build(vec![ix], &user_addr, &checkpoint(3), &signers).unwrap();
    let body = serialize_unsigned(&tx.instructions, &tx.fee_payer, &tx.checkpoint);
    let sig =
        solana_sdk::signature::Signature::try_from(tx.signatures[0].sig.as_slice()).unwrap();
    assert!(sig.verify(signers[0].pubkey().as_ref(), &body));
    // and it does not verify over a different body
    let other = serialize_unsigned(&tx.instructions, &tx.fee_payer, &checkpoint(4));
    assert!(!sig.verify(signers[0].pubkey().as_ref(), &other));
}

#[test]
fn build_fails_without_matching_keypair() {
    let user = Keypair::new();
    let user_addr = addr_of(&user);
    let ix = encode_deposit_ix(&addr(1), &addr(2), &user_addr, 10);
    let signers: Vec<Keypair> = Vec::new();
    let err = build(vec![ix], &user_addr, &checkpoint(3), &signers).unwrap_err();
    assert_eq!(err, BuildError::MissingSigner);
}

#[test]
fn unsigned_body_is_deterministic() {
    let user = addr(5);
    let ix1 = encode_deposit_ix(&addr(1), &addr(2), &user, 10);
    let ix2 = encode_deposit_ix(&addr(1), &addr(2), &user, 10);
    let a = serialize_unsigned(&vec![ix1], &addr(9), &checkpoint(4));
    let b = serialize_unsigned(&vec![ix2], &addr(9), &checkpoint(4));
    assert_eq!(a, b);
}

#[test]
fn unsigned_body_depends_on_checkpoint() {
    let user = addr(5);
    let ix1 = encode_deposit_ix(&addr(1), &addr(2), &user, 10);
    let ix2 = encode_deposit_ix(&addr(1), &addr(2), &user, 10);
    let a = serialize_unsigned(&vec![ix1], &addr(9), &checkpoint(4));
    let b = serialize_unsigned(&vec![ix2], &addr(9), &checkpoint(5));
    assert_ne!(a, b);
}

#[test]
fn build_fails_when_one_of_two_required_signers_is_missing() {
    let payer = Keypair::new();
    let user = Keypair::new();
    let payer_addr = addr_of(&payer);
    let user_addr = addr_of(&user);
    let ix = encode_deposit_ix(&addr(1), &addr(2), &user_addr, 10);
    // the fee payer's keypair is present, the marked user's is not
    let signers = vec![payer];
    let err = build(vec![ix], &payer_addr, &checkpoint(3), &signers).unwrap_err();
    assert_eq!(err, BuildError::MissingSigner);
}

#[test]
fn unsigned_body_layout_is_exact() {
    let user = addr(5);
    let ix = encode_deposit_ix(&addr(1), &addr(2), &user, 10);
    let ix_data = ix.data.clone();
    let body = serialize_unsigned(&vec![ix], &addr(9), &checkpoint(4));
    let mut expected: Vec<u8> = Vec::new();
    expected.extend_from_slice(&[9u8; 32]); // fee payer
    expected.extend_from_slice(&[4u8; 32]); // checkpoint
    expected.extend_from_slice(&1u64.to_le_bytes()); // instruction count
    expected.extend_from_slice(&[1u8; 32]); // program id
    expected.extend_from_slice(&3u64.to_le_bytes()); // account count
    expected.extend_from_slice(&[2u8; 32]); // vault account, writable
    expected.extend_from_slice(&[0u8, 1]);
    expected.extend_from_slice(&[5u8; 32]); // user account, signer + writable
    expected.extend_from_slice(&[1u8, 1]);
    expected.extend_from_slice(&[0u8; 32]); // system program, read-only
    expected.extend_from_slice(&[0u8, 0]);
    expected.extend_from_slice(&(ix_data.len() as u64).to_le_bytes());
    expected.extend_from_slice(&ix_data);
    assert_eq!(body, expected);
}

#[test]
fn required_signers_put_fee_payer_first_without_duplicates() {
    let user = addr(5);
    let ix1 = encode_deposit_ix(&addr(1), &addr(2), &user, 10);
    let ix2 = encode_deposit_ix(&addr(1), &addr(2), &user, 20);
    let required =
        vault_pipeline::txn::collect_required_signers(&vec![ix1, ix2], &addr(9));
    assert_eq!(required.len(), 2);
    assert_eq!(required[0].as_bytes(), &vec![9u8; 32]);
    assert_eq!(required[1].as_bytes(), &vec![5u8; 32]);
}

#[test]
fn vault_pda_matches_chain_derivation() {
    let user = Keypair::new();
    let program = solana_sdk::pubkey::Pubkey::new_unique();
    let user_addr = Address::from_bytes(user.pubkey().to_bytes().to_vec()).unwrap();
    let program_addr = Address::from_bytes(program.to_bytes().to_vec()).unwrap();
    let (derived, bump) = derive_vault_pda(&user_addr, &program_addr).unwrap();
    let (expected, expected_bump) = solana_sdk::pubkey::Pubkey::find_program_address(
        &[b"vault", user.pubkey().as_ref()],
        &program,
    );
    assert_eq!(derived.as_bytes(), &expected.to_bytes().to_vec());
    assert_eq!(bump, expected_bump);
}
