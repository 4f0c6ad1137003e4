//! The vault program's state transitions: a vault account records an owner
//! and a balance, and `initialize`, `deposit` and `withdraw` update it
//! exactly as the on-chain program does, including the lamport movements
//! between the calling user and the vault account.

use vstd::prelude::*;
use crate::addr::{Address, ADDRESS_LEN};

verus! {

/// The mathematical value of a vault's recorded state.
pub struct VaultView {
    pub owner: Seq<u8>,
    pub balance: u64,
}

impl VaultView {
    pub open spec fn wf(&self) -> bool {
        self.owner.len() == ADDRESS_LEN
    }
}

/// The mathematical value of a user account.
pub struct UserView {
    pub key: Seq<u8>,
    pub lamports: u64,
}

impl UserView {
    pub open spec fn wf(&self) -> bool {
        self.key.len() == ADDRESS_LEN
    }
}

/// The mathematical value of the vault account as it exists on chain.
pub struct VaultAccountView {
    pub vault: VaultView,
    pub lamports: u64,
}

impl VaultAccountView {
    /// The account holds at least as many lamports as its bookkept balance.
    pub open spec fn wf(&self) -> bool {
        &&& self.vault.wf()
        &&& self.vault.balance <= self.lamports
    }
}

/// The mathematical value of the accounts a vault call touches.
pub struct CallAccountsView {
    pub vault: VaultAccountView,
    pub user: UserView,
}

impl CallAccountsView {
    pub open spec fn wf(&self) -> bool {
        self.vault.wf() && self.user.wf()
    }
}

/// The vault account's recorded state: its owner and its bookkept balance.
#[derive(Debug)]
pub struct Vault {
    pub owner: Address,
    pub balance: u64,
}

impl View for Vault {
    type V = VaultView;

    open spec fn view(&self) -> VaultView {
        VaultView { owner: self.owner@, balance: self.balance }
    }
}

impl Vault {
    pub open spec fn wf(&self) -> bool {
        self@.wf()
    }
}

impl Clone for Vault {
    /// A clone has the same value.
    fn clone(&self) -> (r: Self)
        ensures
            r@ == self@,
    {
        Vault { owner: self.owner.clone(), balance: self.balance }
    }
}

/// Why the program rejected a call.
#[derive(Clone, Copy, Debug, PartialEq, Eq, Structural)]
pub enum ErrorCode {
    /// The calling user is not the vault's owner.
    Unauthorized,
    /// The vault's balance, or the paying account, cannot cover the amount.
    InsufficientFunds,
    /// The operation would overflow a 64-bit lamport amount.
    Overflow,
}

/// The calling user's account: its address and its lamport holdings.
#[derive(Debug)]
pub struct UserAccount {
    pub key: Address,
    pub lamports: u64,
}

impl View for UserAccount {
    type V = UserView;

    open spec fn view(&self) -> UserView {
        UserView { key: self.key@, lamports: self.lamports }
    }
}

impl Clone for UserAccount {
    /// A clone has the same value.
    fn clone(&self) -> (r: Self)
        ensures
            r@ == self@,
    {
        UserAccount { key: self.key.clone(), lamports: self.lamports }
    }
}

/// The vault account as it exists on chain: its recorded state plus the
/// lamports the account actually holds.
#[derive(Debug)]
pub struct VaultAccount {
    pub vault: Vault,
    pub lamports: u64,
}

impl View for VaultAccount {
    type V = VaultAccountView;

    open spec fn view(&self) -> VaultAccountView {
        VaultAccountView { vault: self.vault@, lamports: self.lamports }
    }
}

impl VaultAccount {
    pub open spec fn wf(&self) -> bool {
        self@.wf()
    }
}

impl Clone for VaultAccount {
    /// A clone has the same value.
    fn clone(&self) -> (r: Self)
        ensures
            r@ == self@,
    {
        VaultAccount { vault: self.vault.clone(), lamports: self.lamports }
    }
}

/// The accounts an `initialize` call touches.
#[derive(Debug)]
pub struct Initialize {
    pub vault: VaultAccount,
    pub user: UserAccount,
}

impl View for Initialize {
    type V = CallAccountsView;

    open spec fn view(&self) -> CallAccountsView {
        CallAccountsView { vault: self.vault@, user: self.user@ }
    }
}

impl Initialize {
    pub open spec fn wf(&self) -> bool {
        self@.wf()
    }
}

/// The accounts a `deposit` call touches.
#[derive(Debug)]
pub struct Deposit {
    pub vault: VaultAccount,
    pub user: UserAccount,
}

impl View for Deposit {
    type V = CallAccountsView;

    open spec fn view(&self) -> CallAccountsView {
        CallAccountsView { vault: self.vault@, user: self.user@ }
    }
}

impl Deposit {
    pub open spec fn wf(&self) -> bool {
        self@.wf()
    }
}

/// The accounts a `withdraw` call touches.
#[derive(Debug)]
pub struct Withdraw {
    pub vault: VaultAccount,
    pub user: UserAccount,
}

impl View for Withdraw {
    type V = CallAccountsView;

    open spec fn view(&self) -> CallAccountsView {
        CallAccountsView { vault: self.vault@, user: self.user@ }
    }
}

impl Withdraw {
    pub open spec fn wf(&self) -> bool {
        self@.wf()
    }
}

/// What `initialize` does: the vault's owner becomes the calling user and
/// the balance starts at zero; lamport holdings are untouched.
pub open spec fn spec_initialize(ctx: CallAccountsView) -> CallAccountsView {
    CallAccountsView {
        vault: VaultAccountView {
            vault: VaultView { owner: ctx.user.key, balance: 0u64 },
            lamports: ctx.vault.lamports,
        },
        user: ctx.user,
    }
}

/// Initializes a vault for the calling user.
pub fn initialize(ctx: &Initialize) -> (r: Initialize)
    requires
        ctx.wf(),
    ensures
        r@ == spec_initialize(ctx@),
        r.wf(),
{
    Initialize {
        vault: VaultAccount {
            vault: Vault { owner: ctx.user.key.clone(), balance: 0u64 },
            lamports: ctx.vault.lamports,
        },
        user: UserAccount { key: ctx.user.key.clone(), lamports: ctx.user.lamports },
    }
}

/// What `deposit` does. In order: the caller must own the vault; the new
/// balance must fit in 64 bits; the caller must hold the amount being
/// deposited; the vault's holdings after the transfer must fit in 64 bits.
/// On success the balance and the vault's lamports grow by the amount and
/// the user's lamports shrink by it.
pub open spec fn spec_deposit(ctx: CallAccountsView, amount: u64) -> Result<
    CallAccountsView,
    ErrorCode,
> {
    if ctx.vault.vault.owner != ctx.user.key {
        Err(ErrorCode::Unauthorized)
    } else if ctx.vault.vault.balance + amount > u64::MAX {
        Err(ErrorCode::Overflow)
    } else if ctx.user.lamports < amount {
        Err(ErrorCode::InsufficientFunds)
    } else if ctx.vault.lamports + amount > u64::MAX {
        Err(ErrorCode::Overflow)
    } else {
        Ok(
            (CallAccountsView {
                vault: VaultAccountView {
                    vault: VaultView {
                        owner: ctx.vault.vault.owner,
                        balance: (ctx.vault.vault.balance + amount) as u64,
                    },
                    lamports: (ctx.vault.lamports + amount) as u64,
                },
                user: UserView {
                    key: ctx.user.key,
                    lamports: (ctx.user.lamports - amount) as u64,
                },
            }),
        )
    }
}

/// Deposits `amount` lamports into the vault. A rejected call leaves every
/// account as it was: the rejection carries no new state.
pub fn deposit(ctx: &Deposit, amount: u64) -> (r: Result<Deposit, ErrorCode>)
    ensures
        r matches Ok(d) ==> spec_deposit(ctx@, amount) == Ok::<CallAccountsView, ErrorCode>(d@),
        r matches Err(e) ==> spec_deposit(ctx@, amount) == Err::<CallAccountsView, ErrorCode>(e),
{
    if !ctx.vault.vault.owner.eq_addr(&ctx.user.key) {
        return Err(ErrorCode::Unauthorized);
    }
    let balance = match ctx.vault.vault.balance.checked_add(amount) {
        Some(b) => b,
        None => {
            return Err(ErrorCode::Overflow);
        },
    };
    if ctx.user.lamports < amount {
        return Err(ErrorCode::InsufficientFunds);
    }
    let vault_lamports = match ctx.vault.lamports.checked_add(amount) {
        Some(l) => l,
        None => {
            return Err(ErrorCode::Overflow);
        },
    };
    Ok(
        Deposit {
            vault: VaultAccount {
                vault: Vault { owner: ctx.vault.vault.owner.clone(), balance },
                lamports: vault_lamports,
            },
            user: UserAccount { key: ctx.user.key.clone(), lamports: ctx.user.lamports - amount },
        },
    )
}

/// What `withdraw` does. In order: the caller must own the vault; the
/// balance must cover the amount; so must the vault's actual holdings; and
/// the user's holdings after the transfer must fit in 64 bits. On success
/// the balance and the vault's lamports shrink by the amount and the user's
/// lamports grow by it.
pub open spec fn spec_withdraw(ctx: CallAccountsView, amount: u64) -> Result<
    CallAccountsView,
    ErrorCode,
> {
    if ctx.vault.vault.owner != ctx.user.key {
        Err(ErrorCode::Unauthorized)
    } else if ctx.vault.vault.balance < amount {
        Err(ErrorCode::InsufficientFunds)
    } else if ctx.vault.lamports < amount {
        Err(ErrorCode::InsufficientFunds)
    } else if ctx.user.lamports + amount > u64::MAX {
        Err(ErrorCode::Overflow)
    } else {
        Ok(
            (CallAccountsView {
                vault: VaultAccountView {
                    vault: VaultView {
                        owner: ctx.vault.vault.owner,
                        balance: (ctx.vault.vault.balance - amount) as u64,
                    },
                    lamports: (ctx.vault.lamports - amount) as u64,
                },
                user: UserView {
                    key: ctx.user.key,
                    lamports: (ctx.user.lamports + amount) as u64,
                },
            }),
        )
    }
}

/// Withdraws `amount` lamports from the vault. A rejected call leaves every
/// account as it was: the rejection carries no new state.
pub fn withdraw(ctx: &Withdraw, amount: u64) -> (r: Result<Withdraw, ErrorCode>)
    ensures
        r matches Ok(w) ==> spec_withdraw(ctx@, amount) == Ok::<CallAccountsView, ErrorCode>(w@),
        r matches Err(e) ==> spec_withdraw(ctx@, amount) == Err::<CallAccountsView, ErrorCode>(e),
{
    if !ctx.vault.vault.owner.eq_addr(&ctx.user.key) {
        return Err(ErrorCode::Unauthorized);
    }
    if ctx.vault.vault.balance < amount {
        return Err(ErrorCode::InsufficientFunds);
    }
    if ctx.vault.lamports < amount {
        return Err(ErrorCode::InsufficientFunds);
    }
    let user_lamports = match ctx.user.lamports.checked_add(amount) {
        Some(l) => l,
        None => {
            return Err(ErrorCode::Overflow);
        },
    };
    Ok(
        Withdraw {
            vault: VaultAccount {
                vault: Vault {
                    owner: ctx.vault.vault.owner.clone(),
                    balance: ctx.vault.vault.balance - amount,
                },
                lamports: ctx.vault.lamports - amount,
            },
            user: UserAccount { key: ctx.user.key.clone(), lamports: user_lamports },
        },
    )
}

/// A successful deposit keeps the accounts well formed and conserves the
/// total lamports held by the user and the vault.
pub proof fn lemma_deposit_sound(ctx: CallAccountsView, amount: u64)
    requires
        ctx.wf(),
    ensures
        spec_deposit(ctx, amount) matches Ok(d) ==> {
            &&& d.wf()
            &&& d.user.lamports + d.vault.lamports == ctx.user.lamports + ctx.vault.lamports
            &&& d.vault.vault.balance == ctx.vault.vault.balance + amount
            &&& d.vault.vault.owner == ctx.vault.vault.owner
        },
{
}

/// A successful withdrawal keeps the accounts well formed and conserves the
/// total lamports held by the user and the vault.
pub proof fn lemma_withdraw_sound(ctx: CallAccountsView, amount: u64)
    requires
        ctx.wf(),
    ensures
        spec_withdraw(ctx, amount) matches Ok(w) ==> {
            &&& w.wf()
            &&& w.user.lamports + w.vault.lamports == ctx.user.lamports + ctx.vault.lamports
            &&& w.vault.vault.balance == ctx.vault.vault.balance - amount
            &&& w.vault.vault.owner == ctx.vault.vault.owner
        },
{
}

/// A withdrawal of more than the recorded balance is rejected as
/// insufficient funds, and a rejected call changes nothing.
pub proof fn lemma_overdraw_rejected(ctx: CallAccountsView, amount: u64)
    requires
        ctx.wf(),
        ctx.vault.vault.owner == ctx.user.key,
        amount > ctx.vault.vault.balance,
    ensures
        spec_withdraw(ctx, amount) == Err::<CallAccountsView, ErrorCode>(
            ErrorCode::InsufficientFunds,
        ),
{
}

/// A deposit that would overflow the 64-bit balance is rejected as an
/// overflow, and a rejected call changes nothing: no lamports move.
pub proof fn lemma_deposit_overflow_rejected(ctx: CallAccountsView, amount: u64)
    requires
        ctx.wf(),
        ctx.vault.vault.owner == ctx.user.key,
        ctx.vault.vault.balance + amount > u64::MAX,
    ensures
        spec_deposit(ctx, amount) == Err::<CallAccountsView, ErrorCode>(ErrorCode::Overflow),
{
}

} // verus!
