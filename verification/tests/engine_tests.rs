use vault_pipeline::addr::Address;
use vault_pipeline::codec::CallName;
use vault_pipeline::engine::{
    backoff_ms, classify_retry, confirm_step, ConfirmStep, DispatchResult, Intent, LedgerModel,
    RetryDecision, RetrySession, SubmitError, DEFAULT_MAX_ATTEMPTS,
};
use vault_pipeline::vault::{ErrorCode, UserAccount, Vault, VaultAccount};

fn addr(byte: u8) -> Address {
    Address::from_bytes(vec![byte; 32]).unwrap()
}

fn ledger(owner: u8, balance: u64, vault_lamports: u64, user: u8, user_lamports: u64) -> LedgerModel {
    LedgerModel {
        applied: Vec::new(),
        vault: VaultAccount {
            vault: Vault {
                owner: addr(owner),
                balance,
            },
            lamports: vault_lamports,
        },
        user: UserAccount {
            key: addr(user),
            lamports: user_lamports,
        },
    }
}

#[test]
fn expired_checkpoint_is_rebuilt_while_attempts_remain() {
    assert_eq!(
        classify_retry(&SubmitError::ChainCheckpointExpired, 0, DEFAULT_MAX_ATTEMPTS),
        RetryDecision::RebuildAndRetry
    );
    assert_eq!(
        classify_retry(&SubmitError::ChainCheckpointExpired, 2, DEFAULT_MAX_ATTEMPTS),
        RetryDecision::RebuildAndRetry
    );
    assert_eq!(
        classify_retry(&SubmitError::ChainCheckpointExpired, 3, DEFAULT_MAX_ATTEMPTS),
        RetryDecision::Terminal
    );
}

#[test]
fn transport_failure_is_retried_verbatim_while_attempts_remain() {
    assert_eq!(
        classify_retry(&SubmitError::TransportError, 1, DEFAULT_MAX_ATTEMPTS),
        RetryDecision::RetryVerbatim
    );
    assert_eq!(
        classify_retry(&SubmitError::TransportError, 3, DEFAULT_MAX_ATTEMPTS),
        RetryDecision::Terminal
    );
}

#[test]
fn semantic_rejection_gets_zero_retries() {
    for code in [
        ErrorCode::Unauthorized,
        ErrorCode::InsufficientFunds,
        ErrorCode::Overflow,
    ] {
        assert_eq!(
            classify_retry(&SubmitError::SemanticRejection(code), 0, DEFAULT_MAX_ATTEMPTS),
            RetryDecision::Terminal
        );
    }
}

#[test]
fn timeout_is_surfaced_not_retried() {
    assert_eq!(
        classify_retry(&SubmitError::Timeout, 0, DEFAULT_MAX_ATTEMPTS),
        RetryDecision::Terminal
    );
}

#[test]
fn backoff_is_linear_and_saturating() {
    assert_eq!(backoff_ms(0, 250), 0);
    assert_eq!(backoff_ms(1, 250), 250);
    assert_eq!(backoff_ms(3, 250), 750);
    assert_eq!(backoff_ms(u64::MAX, 2), u64::MAX);
}

#[test]
fn confirmation_wait_is_bounded_and_timeout_is_ambiguous() {
    assert_eq!(confirm_step(true, 0, 30_000), ConfirmStep::Confirmed);
    assert_eq!(confirm_step(false, 29_999, 30_000), ConfirmStep::PollAgain);
    assert_eq!(confirm_step(false, 30_000, 30_000), ConfirmStep::GiveUp);
}

#[test]
fn retry_session_backs_off_linearly_until_the_ceiling() {
    let mut session = RetrySession::new(DEFAULT_MAX_ATTEMPTS, 250);
    let (d1, delay1) = session.on_failure(&SubmitError::ChainCheckpointExpired);
    assert_eq!(d1, RetryDecision::RebuildAndRetry);
    assert_eq!(delay1, 250);
    let (d2, delay2) = session.on_failure(&SubmitError::TransportError);
    assert_eq!(d2, RetryDecision::RetryVerbatim);
    assert_eq!(delay2, 500);
    let (d3, _) = session.on_failure(&SubmitError::TransportError);
    assert_eq!(d3, RetryDecision::Terminal);
    assert_eq!(session.attempts_made, 3);
}

#[test]
fn retry_session_delay_saturates_on_overflow() {
    let mut session = RetrySession::new(DEFAULT_MAX_ATTEMPTS, u64::MAX);
    session.on_failure(&SubmitError::TransportError);
    let (_, delay) = session.on_failure(&SubmitError::TransportError);
    assert_eq!(delay, u64::MAX);
}

#[test]
fn successful_submission_applies_the_call() {
    let mut l = ledger(7, 0, 0, 7, 1000);
    let sig = vec![1u8; 64];
    let r = l.submit(
        &sig,
        Intent {
            call: CallName::Deposit,
            amount: 400,
        },
    );
    match r {
        DispatchResult::Success { txid } => assert_eq!(txid, sig),
        DispatchResult::Failure { .. } => panic!("deposit should have applied"),
    }
    assert_eq!(l.vault.vault.balance, 400);
    assert_eq!(l.user.lamports, 600);
    assert_eq!(l.applied.len(), 1);
}

#[test]
fn scenario_resubmitting_applied_signature_is_a_noop() {
    let mut l = ledger(7, 0, 0, 7, 1000);
    let sig = vec![9u8; 64];
    let intent = Intent {
        call: CallName::Deposit,
        amount: 100,
    };
    l.submit(&sig, intent);
    assert_eq!(l.vault.vault.balance, 100);
    // the very same signed transaction arrives again
    let r = l.submit(&sig, intent);
    match r {
        DispatchResult::Success { txid } => assert_eq!(txid, sig),
        DispatchResult::Failure { .. } => panic!("resubmission must report the same id"),
    }
    // no double-applied effect
    assert_eq!(l.vault.vault.balance, 100);
    assert_eq!(l.user.lamports, 900);
    assert_eq!(l.applied.len(), 1);
}

#[test]
fn scenario_overdraw_submission_is_rejected_with_zero_retries() {
    let mut l = ledger(7, 50, 50, 7, 0);
    let sig = vec![2u8; 64];
    let r = l.submit(
        &sig,
        Intent {
            call: CallName::Withdraw,
            amount: 51,
        },
    );
    let cause = match r {
        DispatchResult::Failure { cause } => cause,
        DispatchResult::Success { .. } => panic!("overdraw must be rejected"),
    };
    assert_eq!(
        cause,
        SubmitError::SemanticRejection(ErrorCode::InsufficientFunds)
    );
    // balance unchanged, nothing recorded
    assert_eq!(l.vault.vault.balance, 50);
    assert_eq!(l.applied.len(), 0);
    // and the engine attempts zero retries for it
    assert_eq!(
        classify_retry(&cause, 0, DEFAULT_MAX_ATTEMPTS),
        RetryDecision::Terminal
    );
}

#[test]
fn scenario_overflowing_deposit_is_rejected_without_lamport_movement() {
    let mut l = ledger(7, u64::MAX, u64::MAX, 7, 500);
    let sig = vec![3u8; 64];
    let r = l.submit(
        &sig,
        Intent {
            call: CallName::Deposit,
            amount: 1,
        },
    );
    match r {
        DispatchResult::Failure { cause } => {
            assert_eq!(cause, SubmitError::SemanticRejection(ErrorCode::Overflow));
        }
        DispatchResult::Success { .. } => panic!("overflowing deposit must be rejected"),
    }
    // no lamport transfer side effect occurred
    assert_eq!(l.user.lamports, 500);
    assert_eq!(l.vault.lamports, u64::MAX);
    assert_eq!(l.applied.len(), 0);
}

#[test]
fn initialize_submission_resets_the_vault() {
    let mut l = ledger(1, 77, 200, 7, 50);
    let sig = vec![4u8; 64];
    let r = l.submit(
        &sig,
        Intent {
            call: CallName::Initialize,
            amount: 0,
        },
    );
    assert!(matches!(r, DispatchResult::Success { .. }));
    assert_eq!(l.vault.vault.owner.as_bytes(), &vec![7u8; 32]);
    assert_eq!(l.vault.vault.balance, 0);
}
