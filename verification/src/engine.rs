//! The submission engine's decision logic: classifying a submission
//! failure, deciding whether and how to retry, linear backoff, and the
//! ledger's idempotent handling of a resubmitted signed transaction.

use vstd::prelude::*;
use crate::codec::CallName;
use crate::vault::{
    lemma_deposit_sound, lemma_withdraw_sound, spec_deposit, spec_initialize, spec_withdraw,
    CallAccountsView, Deposit, ErrorCode, Initialize, UserAccount, VaultAccount, Withdraw,
};

verus! {

/// How many attempts a retryable submission gets by default.
pub const DEFAULT_MAX_ATTEMPTS: u64 = 3;

/// Why a submission attempt failed.
#[derive(Clone, Copy, Debug, PartialEq, Eq, Structural)]
pub enum SubmitError {
    /// The checkpoint the transaction was built against has expired; the
    /// transaction must be rebuilt with a fresh one before a retry.
    ChainCheckpointExpired,
    /// The transport failed; the same signed payload may be resubmitted
    /// verbatim, which is safe because the ledger deduplicates by
    /// signature.
    TransportError,
    /// The remote program rejected the call; retrying cannot help.
    SemanticRejection(ErrorCode),
    /// Confirmation did not arrive in time. The outcome is unknown, not
    /// known to be a failure, so the caller may re-check later; the engine
    /// does not blindly retry.
    Timeout,
}

/// The mathematical value of a submission outcome.
pub enum DispatchResultView {
    Success { txid: Seq<u8> },
    Failure { cause: SubmitError },
}

/// The outcome of one dispatched submission.
#[derive(Debug)]
pub enum DispatchResult {
    /// The ledger accepted the transaction; the identifier is its first
    /// signature.
    Success { txid: Vec<u8> },
    /// The submission failed with a classified cause.
    Failure { cause: SubmitError },
}

impl View for DispatchResult {
    type V = DispatchResultView;

    open spec fn view(&self) -> DispatchResultView {
        match self {
            DispatchResult::Success { txid } => DispatchResultView::Success { txid: txid@ },
            DispatchResult::Failure { cause } => DispatchResultView::Failure { cause: *cause },
        }
    }
}

impl Clone for DispatchResult {
    /// A clone has the same value.
    fn clone(&self) -> (r: Self)
        ensures
            r@ == self@,
    {
        match self {
            DispatchResult::Success { txid } => {
                let mut bytes: Vec<u8> = Vec::new();
                bytes.extend_from_slice(txid.as_slice());
                assert(bytes@ =~= txid@);
                DispatchResult::Success { txid: bytes }
            },
            DispatchResult::Failure { cause } => DispatchResult::Failure { cause: *cause },
        }
    }
}

/// What to do after a failed attempt.
#[derive(Clone, Copy, Debug, PartialEq, Eq, Structural)]
pub enum RetryDecision {
    /// Fetch a fresh checkpoint, rebuild, and resubmit. The rebuilt
    /// transaction is a distinct one with a distinct identifier and must be
    /// tracked as such.
    RebuildAndRetry,
    /// Resubmit the same signed payload verbatim: never resign with a
    /// different checkpoint under the same identity.
    RetryVerbatim,
    /// Surface the failure; no retry.
    Terminal,
}

/// What the retry policy decides, as a function of the failure, the
/// attempts already made, and the attempt ceiling. An expired checkpoint is
/// rebuilt and retried while attempts remain; a transport failure is
/// retried verbatim while attempts remain; a semantic rejection and a
/// timeout are terminal.
pub open spec fn spec_classify_retry(
    err: SubmitError,
    attempts_made: u64,
    max_attempts: u64,
) -> RetryDecision {
    match err {
        SubmitError::ChainCheckpointExpired => if attempts_made < max_attempts {
            RetryDecision::RebuildAndRetry
        } else {
            RetryDecision::Terminal
        },
        SubmitError::TransportError => if attempts_made < max_attempts {
            RetryDecision::RetryVerbatim
        } else {
            RetryDecision::Terminal
        },
        SubmitError::SemanticRejection(_) => RetryDecision::Terminal,
        SubmitError::Timeout => RetryDecision::Terminal,
    }
}

/// Decides whether and how to retry after a failed attempt.
pub fn classify_retry(err: &SubmitError, attempts_made: u64, max_attempts: u64) -> (r:
    RetryDecision)
    ensures
        r == spec_classify_retry(*err, attempts_made, max_attempts),
{
    match err {
        SubmitError::ChainCheckpointExpired => {
            if attempts_made < max_attempts {
                RetryDecision::RebuildAndRetry
            } else {
                RetryDecision::Terminal
            }
        },
        SubmitError::TransportError => {
            if attempts_made < max_attempts {
                RetryDecision::RetryVerbatim
            } else {
                RetryDecision::Terminal
            }
        },
        SubmitError::SemanticRejection(_) => RetryDecision::Terminal,
        SubmitError::Timeout => RetryDecision::Terminal,
    }
}

/// A semantic rejection is never retried, whatever the attempt count.
pub proof fn lemma_semantic_rejection_not_retried(
    code: ErrorCode,
    attempts_made: u64,
    max_attempts: u64,
)
    ensures
        spec_classify_retry(SubmitError::SemanticRejection(code), attempts_made, max_attempts)
            == RetryDecision::Terminal,
{
}

/// The linear backoff before the given attempt: the attempt number times
/// the base interval, saturating at the largest 64-bit value.
pub fn backoff_ms(attempt: u64, base_ms: u64) -> (r: u64)
    ensures
        attempt * base_ms <= u64::MAX ==> r == attempt * base_ms,
        attempt * base_ms > u64::MAX ==> r == u64::MAX,
{
    match attempt.checked_mul(base_ms) {
        Some(v) => v,
        None => u64::MAX,
    }
}

/// What a confirmation wait does next: the wait is bounded, it polls no
/// faster than its fixed interval, and running out of time is an unknown
/// outcome — not a proven failure.
#[derive(Clone, Copy, Debug, PartialEq, Eq, Structural)]
pub enum ConfirmStep {
    /// The endpoint reported finality.
    Confirmed,
    /// Wait one poll interval, then ask again.
    PollAgain,
    /// The bounded wait elapsed with the outcome still unknown; surfaced as
    /// a timeout, distinctly from a definite failure.
    GiveUp,
}

/// Decides one step of the bounded confirmation wait from what the endpoint
/// last reported and how much of the wait has elapsed.
pub fn confirm_step(finalized: bool, elapsed_ms: u64, timeout_ms: u64) -> (r: ConfirmStep)
    ensures
        finalized ==> r == ConfirmStep::Confirmed,
        !finalized && elapsed_ms < timeout_ms ==> r == ConfirmStep::PollAgain,
        !finalized && elapsed_ms >= timeout_ms ==> r == ConfirmStep::GiveUp,
{
    if finalized {
        ConfirmStep::Confirmed
    } else if elapsed_ms < timeout_ms {
        ConfirmStep::PollAgain
    } else {
        ConfirmStep::GiveUp
    }
}

/// The retry bookkeeping for one logical intent: how many attempts were
/// made against an attempt ceiling, and the base backoff interval.
#[derive(Clone, Copy, Debug, PartialEq, Eq, Structural)]
pub struct RetrySession {
    pub attempts_made: u64,
    pub max_attempts: u64,
    pub base_ms: u64,
}

impl RetrySession {
    /// A fresh session with no attempts made.
    pub fn new(max_attempts: u64, base_ms: u64) -> (r: RetrySession)
        ensures
            r == (RetrySession { attempts_made: 0u64, max_attempts, base_ms }),
    {
        RetrySession { attempts_made: 0, max_attempts, base_ms }
    }

    /// Records one failed attempt and decides what follows: the decision is
    /// the retry policy's, and the linear backoff grows with the attempts
    /// made. At most `max_attempts` attempts are ever decided.
    pub fn on_failure(&mut self, err: &SubmitError) -> (r: (RetryDecision, u64))
        requires
            old(self).attempts_made < u64::MAX,
        ensures
            final(self).attempts_made == old(self).attempts_made + 1,
            final(self).max_attempts == old(self).max_attempts,
            final(self).base_ms == old(self).base_ms,
            r.0 == spec_classify_retry(
                *err,
                (old(self).attempts_made + 1) as u64,
                old(self).max_attempts,
            ),
            (old(self).attempts_made + 1) * old(self).base_ms <= u64::MAX ==> r.1 == (old(
                self,
            ).attempts_made + 1) * old(self).base_ms,
            (old(self).attempts_made + 1) * old(self).base_ms > u64::MAX ==> r.1 == u64::MAX,
    {
        self.attempts_made = self.attempts_made + 1;
        let decision = classify_retry(err, self.attempts_made, self.max_attempts);
        let delay = backoff_ms(self.attempts_made, self.base_ms);
        (decision, delay)
    }
}

/// The retry ceiling is honored: once as many attempts were made as the
/// ceiling allows, every decision is terminal, whatever the failure.
pub proof fn lemma_attempt_ceiling_is_final(err: SubmitError, attempts_made: u64, max_attempts: u64)
    requires
        attempts_made >= max_attempts,
    ensures
        spec_classify_retry(err, attempts_made, max_attempts) == RetryDecision::Terminal,
{
}

/// One domain intent submitted through the engine: which call to make and
/// with what amount. `initialize` takes no amount; it is ignored there.
#[derive(Clone, Copy, Debug, PartialEq, Eq, Structural)]
pub struct Intent {
    pub call: CallName,
    pub amount: u64,
}

/// The mathematical value of the ledger model: the signatures of the
/// transactions already applied, in order of application, and the accounts
/// a vault call touches.
pub struct LedgerView {
    pub applied: Seq<Seq<u8>>,
    pub accounts: CallAccountsView,
}

impl LedgerView {
    pub open spec fn wf(&self) -> bool {
        self.accounts.wf()
    }
}

/// A model of the remote ledger, as far as the engine relies on it: it
/// deduplicates submissions by signature, and it applies vault calls with
/// the vault program's exact semantics. Tests drive the pipeline against
/// it.
#[derive(Debug)]
pub struct LedgerModel {
    pub applied: Vec<Vec<u8>>,
    pub vault: VaultAccount,
    pub user: UserAccount,
}

impl View for LedgerModel {
    type V = LedgerView;

    open spec fn view(&self) -> LedgerView {
        LedgerView {
            applied: self.applied@.map_values(|s: Vec<u8>| s@),
            accounts: CallAccountsView { vault: self.vault@, user: self.user@ },
        }
    }
}

impl LedgerModel {
    pub open spec fn wf(&self) -> bool {
        self@.wf()
    }
}

/// What applying a call does to the accounts: `initialize` always succeeds;
/// `deposit` and `withdraw` succeed or reject exactly as the vault program
/// does.
pub open spec fn spec_apply_call(
    accounts: CallAccountsView,
    intent: Intent,
) -> Result<CallAccountsView, ErrorCode> {
    match intent.call {
        CallName::Initialize => Ok(spec_initialize(accounts)),
        CallName::Deposit => spec_deposit(accounts, intent.amount),
        CallName::Withdraw => spec_withdraw(accounts, intent.amount),
    }
}

/// What submitting a signed transaction does to the ledger. A signature
/// already applied is a no-op: the ledger reports the same identifier again
/// and changes nothing. A new signature applies the call; on success it is
/// recorded, on rejection nothing changes and the rejection is surfaced as
/// a semantic failure.
pub open spec fn spec_submit(l: LedgerView, sig: Seq<u8>, intent: Intent) -> (
    LedgerView,
    Result<Seq<u8>, ErrorCode>,
) {
    if l.applied.contains(sig) {
        (l, Ok(sig))
    } else {
        match spec_apply_call(l.accounts, intent) {
            Ok(accounts) => (
                LedgerView { applied: l.applied.push(sig), accounts },
                Ok(sig),
            ),
            Err(code) => (l, Err(code)),
        }
    }
}

fn bytes_eq(a: &Vec<u8>, b: &Vec<u8>) -> (r: bool)
    ensures
        r == (a@ == b@),
{
    if a.len() != b.len() {
        assert(a@.len() != b@.len());
        return false;
    }
    let mut k: usize = 0;
    while k < a.len()
        invariant
            a@.len() == b@.len(),
            k <= a@.len(),
            forall|j: int| 0 <= j < k ==> a@[j] == b@[j],
        decreases a@.len() - k,
    {
        if a[k] != b[k] {
            assert(a@[k as int] != b@[k as int]);
            return false;
        }
        k += 1;
    }
    assert(a@ =~= b@);
    true
}

fn applied_contains(applied: &Vec<Vec<u8>>, sig: &Vec<u8>) -> (r: bool)
    ensures
        r == applied@.map_values(|s: Vec<u8>| s@).contains(sig@),
{
    let ghost views: Seq<Seq<u8>> = applied@.map_values(|s: Vec<u8>| s@);
    let mut i: usize = 0;
    while i < applied.len()
        invariant
            views == applied@.map_values(|s: Vec<u8>| s@),
            i <= applied@.len(),
            forall|j: int| 0 <= j < i ==> views[j] != sig@,
        decreases applied@.len() - i,
    {
        if bytes_eq(&applied[i], sig) {
            assert(views[i as int] == sig@);
            return true;
        }
        assert(views[i as int] == applied@[i as int]@);
        i += 1;
    }
    assert(forall|j: int| 0 <= j < views.len() ==> views[j] != sig@);
    false
}

fn clone_bytes(v: &Vec<u8>) -> (r: Vec<u8>)
    ensures
        r@ == v@,
{
    let mut out: Vec<u8> = Vec::new();
    out.extend_from_slice(v.as_slice());
    assert(out@ =~= v@);
    out
}

impl LedgerModel {
    /// Submits a signed transaction, identified by its first signature, to
    /// the ledger model. Resubmitting an already-applied signature returns
    /// the same identifier and applies nothing a second time.
    pub fn submit(&mut self, sig: &Vec<u8>, intent: Intent) -> (r: DispatchResult)
        requires
            old(self).wf(),
        ensures
            final(self)@ == spec_submit(old(self)@, sig@, intent).0,
            final(self).wf(),
            spec_submit(old(self)@, sig@, intent).1 matches Ok(id) ==> (r matches
                DispatchResult::Success { txid } && txid@ == id),
            spec_submit(old(self)@, sig@, intent).1 matches Err(code) ==> (r matches
                DispatchResult::Failure { cause } && cause == SubmitError::SemanticRejection(code)),
    {
        if applied_contains(&self.applied, sig) {
            return DispatchResult::Success { txid: clone_bytes(sig) };
        }
        let accounts = match intent.call {
            CallName::Initialize => {
                let ctx = Initialize {
                    vault: VaultAccount { vault: self.vault.vault.clone(), lamports: self.vault.lamports },
                    user: UserAccount { key: self.user.key.clone(), lamports: self.user.lamports },
                };
                let out = crate::vault::initialize(&ctx);
                Ok((out.vault, out.user))
            },
            CallName::Deposit => {
                let ctx = Deposit {
                    vault: VaultAccount { vault: self.vault.vault.clone(), lamports: self.vault.lamports },
                    user: UserAccount { key: self.user.key.clone(), lamports: self.user.lamports },
                };
                proof {
                    lemma_deposit_sound(ctx@, intent.amount);
                }
                match crate::vault::deposit(&ctx, intent.amount) {
                    Ok(out) => Ok((out.vault, out.user)),
                    Err(code) => Err(code),
                }
            },
            CallName::Withdraw => {
                let ctx = Withdraw {
                    vault: VaultAccount { vault: self.vault.vault.clone(), lamports: self.vault.lamports },
                    user: UserAccount { key: self.user.key.clone(), lamports: self.user.lamports },
                };
                proof {
                    lemma_withdraw_sound(ctx@, intent.amount);
                }
                match crate::vault::withdraw(&ctx, intent.amount) {
                    Ok(out) => Ok((out.vault, out.user)),
                    Err(code) => Err(code),
                }
            },
        };
        match accounts {
            Ok((vault, user)) => {
                self.vault = vault;
                self.user = user;
                self.applied.push(clone_bytes(sig));
                proof {
                    assert(self.applied@.map_values(|s: Vec<u8>| s@) =~= old(
                        self,
                    )@.applied.push(sig@));
                }
                DispatchResult::Success { txid: clone_bytes(sig) }
            },
            Err(code) => DispatchResult::Failure { cause: SubmitError::SemanticRejection(code) },
        }
    }
}

/// Idempotence: submitting a signature the ledger has already applied is a
/// no-op that reports the same identifier again, whatever the intent —
/// never a second application of its effect.
pub proof fn lemma_resubmit_is_noop(l: LedgerView, sig: Seq<u8>, intent: Intent)
    requires
        l.applied.contains(sig),
    ensures
        spec_submit(l, sig, intent) == (l, Ok::<Seq<u8>, ErrorCode>(sig)),
{
}

/// A submission that succeeds records its signature, so submitting it a
/// second time — with any intent — changes nothing and returns the same
/// identifier.
pub proof fn lemma_apply_then_resubmit(l: LedgerView, sig: Seq<u8>, first: Intent, second: Intent)
    requires
        spec_submit(l, sig, first).1 is Ok,
    ensures
        spec_submit(spec_submit(l, sig, first).0, sig, second) == (
            spec_submit(l, sig, first).0,
            Ok::<Seq<u8>, ErrorCode>(sig),
        ),
{
    let l1 = spec_submit(l, sig, first).0;
    assert(l1.applied.contains(sig)) by {
        if l.applied.contains(sig) {
        } else {
            assert(l1.applied == l.applied.push(sig));
            assert(l1.applied[l.applied.len() as int] == sig);
        }
    }
}

/// A rejected submission changes nothing: the ledger state after a semantic
/// rejection is the state before it.
pub proof fn lemma_rejection_changes_nothing(l: LedgerView, sig: Seq<u8>, intent: Intent)
    requires
        spec_submit(l, sig, intent).1 is Err,
    ensures
        spec_submit(l, sig, intent).0 == l,
{
}

} // verus!
