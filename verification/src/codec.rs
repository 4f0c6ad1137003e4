//! Wire codec for the vault program: derives call discriminators, encodes
//! typed instruction calls into the binary call format, and decodes account
//! state from raw bytes.

use vstd::prelude::*;
use crate::addr::{Address, ADDRESS_LEN};
use crate::vault::Vault;

verus! {

/// Number of bytes in a call or account discriminator.
pub const DISCRIMINATOR_LEN: usize = 8;

/// Number of bytes in an encoded vault account: an 8-byte kind tag, a
/// 32-byte owner address, and an 8-byte little-endian balance.
pub const VAULT_ACCOUNT_LEN: usize = 48;

/// The SHA-256 digest of a byte sequence. The digest is a function of the
/// input alone; its definition is the hash function's, not this library's.
pub uninterp spec fn sha256_of(input: Seq<u8>) -> Seq<u8>;

/// Relies on `sha2::Sha256` through the `Digest` trait: the SHA-256 digest
/// depends on the input bytes alone, and is 32 bytes long.
#[verifier::external_body]
fn sha256(input: &Vec<u8>) -> (r: Vec<u8>)
    ensures
        r@ == sha256_of(input@),
        r@.len() == 32,
{
    <sha2::Sha256 as sha2::Digest>::digest(input.as_slice()).to_vec()
}

/// A named call of the vault program.
#[derive(Clone, Copy, Debug, PartialEq, Eq, Structural)]
pub enum CallName {
    Initialize,
    Deposit,
    Withdraw,
}

/// The namespaced preimage hashed to derive a call discriminator: the bytes
/// of `"global:"` followed by the bytes of the call's name.
pub open spec fn call_preimage(name: CallName) -> Seq<u8> {
    match name {
        // "global:initialize"
        CallName::Initialize => seq![
            103u8, 108, 111, 98, 97, 108, 58,
            105, 110, 105, 116, 105, 97, 108, 105, 122, 101,
        ],
        // "global:deposit"
        CallName::Deposit => seq![
            103u8, 108, 111, 98, 97, 108, 58,
            100, 101, 112, 111, 115, 105, 116,
        ],
        // "global:withdraw"
        CallName::Withdraw => seq![
            103u8, 108, 111, 98, 97, 108, 58,
            119, 105, 116, 104, 100, 114, 97, 119,
        ],
    }
}

/// The namespaced preimage hashed to derive the vault account's kind tag:
/// the bytes of `"account:Vault"`.
pub open spec fn vault_account_preimage() -> Seq<u8> {
    seq![97u8, 99, 99, 111, 117, 110, 116, 58, 86, 97, 117, 108, 116]
}

/// The 8-byte discriminator of a call: the first 8 bytes of the SHA-256
/// digest of its namespaced preimage.
pub open spec fn spec_discriminator(name: CallName) -> Seq<u8> {
    sha256_of(call_preimage(name)).take(8)
}

/// The 8-byte kind tag of the vault account.
pub open spec fn spec_vault_account_tag() -> Seq<u8> {
    sha256_of(vault_account_preimage()).take(8)
}

fn call_preimage_bytes(name: CallName) -> (r: Vec<u8>)
    ensures
        r@ == call_preimage(name),
{
    let mut v: Vec<u8> = Vec::new();
    v.push(103u8);
    v.push(108u8);
    v.push(111u8);
    v.push(98u8);
    v.push(97u8);
    v.push(108u8);
    v.push(58u8);
    match name {
        CallName::Initialize => {
            v.push(105u8);
            v.push(110u8);
            v.push(105u8);
            v.push(116u8);
            v.push(105u8);
            v.push(97u8);
            v.push(108u8);
            v.push(105u8);
            v.push(122u8);
            v.push(101u8);
        },
        CallName::Deposit => {
            v.push(100u8);
            v.push(101u8);
            v.push(112u8);
            v.push(111u8);
            v.push(115u8);
            v.push(105u8);
            v.push(116u8);
        },
        CallName::Withdraw => {
            v.push(119u8);
            v.push(105u8);
            v.push(116u8);
            v.push(104u8);
            v.push(100u8);
            v.push(114u8);
            v.push(97u8);
            v.push(119u8);
        },
    }
    assert(v@ =~= call_preimage(name));
    v
}

/// Derives the 8-byte discriminator identifying `name` on the wire.
pub fn anchor_discriminator(name: CallName) -> (r: Vec<u8>)
    ensures
        r@ == spec_discriminator(name),
        r@.len() == 8,
{
    let digest = sha256(&call_preimage_bytes(name));
    let mut out: Vec<u8> = Vec::new();
    let mut i: usize = 0;
    while i < 8
        invariant
            digest@.len() == 32,
            i <= 8,
            out@ == digest@.take(i as int),
        decreases 8 - i,
    {
        out.push(digest[i]);
        assert(out@ =~= digest@.take(i + 1));
        i += 1;
    }
    out
}

/// The little-endian encodings of a list of 64-bit arguments, concatenated.
pub open spec fn spec_args_le(args: Seq<u64>) -> Seq<u8>
    decreases args.len(),
{
    if args.len() == 0 {
        Seq::empty()
    } else {
        vstd::bytes::spec_u64_to_le_bytes(args[0]) + spec_args_le(args.drop_first())
    }
}

proof fn lemma_args_le_snoc(args: Seq<u64>, i: int)
    requires
        0 <= i < args.len(),
    ensures
        spec_args_le(args.take(i + 1)) == spec_args_le(args.take(i))
            + vstd::bytes::spec_u64_to_le_bytes(args[i]),
    decreases i,
{
    assert(spec_args_le(Seq::<u64>::empty()) == Seq::<u8>::empty());
    if i == 0 {
        assert(args.take(1)[0] == args[0]);
        assert(args.take(1).drop_first() =~= Seq::<u64>::empty());
        assert(args.take(0) =~= Seq::<u64>::empty());
        assert(spec_args_le(args.take(1)) =~= vstd::bytes::spec_u64_to_le_bytes(args[0]));
        assert(spec_args_le(args.take(0)) + vstd::bytes::spec_u64_to_le_bytes(args[0])
            =~= vstd::bytes::spec_u64_to_le_bytes(args[0]));
    } else {
        let t = args.drop_first();
        lemma_args_le_snoc(t, i - 1);
        assert(args.take(i + 1).drop_first() =~= t.take(i));
        assert(args.take(i).drop_first() =~= t.take(i - 1));
        assert(args.take(i + 1)[0] == args[0]);
        assert(args.take(i)[0] == args[0]);
        assert(t[i - 1] == args[i]);
        assert(spec_args_le(args.take(i + 1))
            == vstd::bytes::spec_u64_to_le_bytes(args[0]) + spec_args_le(t.take(i)));
        assert(spec_args_le(args.take(i))
            == vstd::bytes::spec_u64_to_le_bytes(args[0]) + spec_args_le(t.take(i - 1)));
        assert(vstd::bytes::spec_u64_to_le_bytes(args[0])
            + (spec_args_le(t.take(i - 1)) + vstd::bytes::spec_u64_to_le_bytes(args[i]))
            =~= (vstd::bytes::spec_u64_to_le_bytes(args[0]) + spec_args_le(t.take(i - 1)))
                + vstd::bytes::spec_u64_to_le_bytes(args[i]));
    }
}

/// The full binary payload of a call: its discriminator followed by its
/// little-endian-encoded arguments.
pub open spec fn spec_call_data(name: CallName, args: Seq<u64>) -> Seq<u8> {
    spec_discriminator(name) + spec_args_le(args)
}

/// Encodes a call's binary payload. The payload is a function of the call
/// name and the arguments alone, so two calls with identical inputs yield
/// byte-identical payloads.
pub fn encode_call_data(name: CallName, args: &Vec<u64>) -> (r: Vec<u8>)
    ensures
        r@ == spec_call_data(name, args@),
{
    let mut data = anchor_discriminator(name);
    proof {
        assert(spec_args_le(Seq::<u64>::empty()) == Seq::<u8>::empty());
        assert(args@.take(0) =~= Seq::<u64>::empty());
        assert(data@ =~= spec_discriminator(name) + spec_args_le(args@.take(0)));
    }
    let mut i: usize = 0;
    while i < args.len()
        invariant
            i <= args@.len(),
            data@ == spec_discriminator(name) + spec_args_le(args@.take(i as int)),
        decreases args@.len() - i,
    {
        let le = vstd::bytes::u64_to_le_bytes(args[i]);
        data.extend_from_slice(le.as_slice());
        proof {
            lemma_args_le_snoc(args@, i as int);
            assert(data@ =~= spec_discriminator(name) + spec_args_le(args@.take(i + 1)));
        }
        i += 1;
    }
    assert(args@.take(args@.len() as int) =~= args@);
    data
}

/// Two encodings of the same call with the same arguments are byte-identical.
pub proof fn lemma_encode_call_deterministic(
    name: CallName,
    args: Seq<u64>,
    first: Seq<u8>,
    second: Seq<u8>,
)
    requires
        first == spec_call_data(name, args),
        second == spec_call_data(name, args),
    ensures
        first == second,
{
}

/// The mathematical value of one account reference.
pub struct AccountRefView {
    pub addr: Seq<u8>,
    pub is_signer: bool,
    pub is_writable: bool,
}

impl AccountRefView {
    pub open spec fn wf(&self) -> bool {
        self.addr.len() == ADDRESS_LEN
    }
}

/// The mathematical value of a wire instruction.
pub struct InstructionView {
    pub program_id: Seq<u8>,
    pub accounts: Seq<AccountRefView>,
    pub data: Seq<u8>,
}

impl InstructionView {
    pub open spec fn wf(&self) -> bool {
        &&& self.program_id.len() == ADDRESS_LEN
        &&& forall|i: int| 0 <= i < self.accounts.len() ==> (#[trigger] self.accounts[i]).wf()
    }
}

/// One ordered account reference of an instruction.
#[derive(Debug, Clone)]
pub struct AccountRef {
    pub addr: Address,
    pub is_signer: bool,
    pub is_writable: bool,
}

impl View for AccountRef {
    type V = AccountRefView;

    open spec fn view(&self) -> AccountRefView {
        AccountRefView {
            addr: self.addr@,
            is_signer: self.is_signer,
            is_writable: self.is_writable,
        }
    }
}

impl AccountRef {
    pub open spec fn wf(&self) -> bool {
        self@.wf()
    }
}

/// A wire instruction: a target program, an ordered account reference list,
/// and an opaque binary payload.
#[derive(Debug, Clone)]
pub struct Instruction {
    pub program_id: Address,
    pub accounts: Vec<AccountRef>,
    pub data: Vec<u8>,
}

impl View for Instruction {
    type V = InstructionView;

    open spec fn view(&self) -> InstructionView {
        InstructionView {
            program_id: self.program_id@,
            accounts: self.accounts@.map_values(|a: AccountRef| a@),
            data: self.data@,
        }
    }
}

impl Instruction {
    pub open spec fn wf(&self) -> bool {
        self@.wf()
    }
}

/// The address of the system program: thirty-two zero bytes.
pub open spec fn spec_system_program_id() -> Seq<u8> {
    Seq::new(ADDRESS_LEN as nat, |i: int| 0u8)
}

/// Builds the system program's address.
pub fn system_program_id() -> (r: Address)
    ensures
        r@ == spec_system_program_id(),
        r.wf(),
{
    let mut bytes: Vec<u8> = Vec::new();
    let mut i: usize = 0;
    while i < ADDRESS_LEN
        invariant
            i <= ADDRESS_LEN,
            bytes@.len() == i,
            forall|j: int| 0 <= j < i ==> bytes@[j] == 0u8,
        decreases ADDRESS_LEN - i,
    {
        bytes.push(0u8);
        i += 1;
    }
    assert(bytes@ =~= spec_system_program_id());
    Address::from_bytes_exact(bytes)
}

/// Whether `accounts` is the vault call account list: the vault account
/// (writable), the calling user (signer, writable), and the system program
/// (read-only), in that order.
pub open spec fn spec_vault_accounts(
    accounts: Seq<AccountRef>,
    vault: Seq<u8>,
    user: Seq<u8>,
) -> bool {
    &&& accounts.len() == 3
    &&& accounts[0].addr@ == vault
    &&& accounts[0].is_signer == false
    &&& accounts[0].is_writable == true
    &&& accounts[1].addr@ == user
    &&& accounts[1].is_signer == true
    &&& accounts[1].is_writable == true
    &&& accounts[2].addr@ == spec_system_program_id()
    &&& accounts[2].is_signer == false
    &&& accounts[2].is_writable == false
}

fn vault_call_accounts(vault: &Address, user: &Address) -> (r: Vec<AccountRef>)
    requires
        vault.wf(),
        user.wf(),
    ensures
        spec_vault_accounts(r@, vault@, user@),
        forall|i: int| 0 <= i < r@.len() ==> (#[trigger] r@[i]).wf(),
{
    let mut accounts: Vec<AccountRef> = Vec::new();
    accounts.push(AccountRef { addr: vault.clone(), is_signer: false, is_writable: true });
    accounts.push(AccountRef { addr: user.clone(), is_signer: true, is_writable: true });
    accounts.push(AccountRef { addr: system_program_id(), is_signer: false, is_writable: false });
    accounts
}

/// Encodes the `initialize` call: no arguments.
pub fn encode_initialize_ix(program_id: &Address, vault: &Address, user: &Address) -> (r:
    Instruction)
    requires
        program_id.wf(),
        vault.wf(),
        user.wf(),
    ensures
        r.program_id@ == program_id@,
        spec_vault_accounts(r.accounts@, vault@, user@),
        r.data@ == spec_call_data(CallName::Initialize, Seq::<u64>::empty()),
        r.wf(),
{
    let args: Vec<u64> = Vec::new();
    Instruction {
        program_id: program_id.clone(),
        accounts: vault_call_accounts(vault, user),
        data: encode_call_data(CallName::Initialize, &args),
    }
}

/// Encodes the `deposit(amount)` call.
pub fn encode_deposit_ix(program_id: &Address, vault: &Address, user: &Address, amount: u64) -> (r:
    Instruction)
    requires
        program_id.wf(),
        vault.wf(),
        user.wf(),
    ensures
        r.program_id@ == program_id@,
        spec_vault_accounts(r.accounts@, vault@, user@),
        r.data@ == spec_call_data(CallName::Deposit, seq![amount]),
        r.wf(),
{
    let mut args: Vec<u64> = Vec::new();
    args.push(amount);
    assert(args@ =~= seq![amount]);
    Instruction {
        program_id: program_id.clone(),
        accounts: vault_call_accounts(vault, user),
        data: encode_call_data(CallName::Deposit, &args),
    }
}

/// Encodes the `withdraw(amount)` call.
pub fn encode_withdraw_ix(program_id: &Address, vault: &Address, user: &Address, amount: u64) -> (r:
    Instruction)
    requires
        program_id.wf(),
        vault.wf(),
        user.wf(),
    ensures
        r.program_id@ == program_id@,
        spec_vault_accounts(r.accounts@, vault@, user@),
        r.data@ == spec_call_data(CallName::Withdraw, seq![amount]),
        r.wf(),
{
    let mut args: Vec<u64> = Vec::new();
    args.push(amount);
    assert(args@ =~= seq![amount]);
    Instruction {
        program_id: program_id.clone(),
        accounts: vault_call_accounts(vault, user),
        data: encode_call_data(CallName::Withdraw, &args),
    }
}

/// The payload of the system program's transfer call: the little-endian
/// 32-bit call tag for a transfer, then the amount in little-endian.
pub open spec fn spec_transfer_data(lamports: u64) -> Seq<u8> {
    vstd::bytes::spec_u32_to_le_bytes(2u32) + vstd::bytes::spec_u64_to_le_bytes(lamports)
}

/// Encodes the system program's transfer call, moving `lamports` from
/// `from` to `to`: the funding account signs and both accounts are
/// writable.
pub fn encode_transfer_ix(from: &Address, to: &Address, lamports: u64) -> (r: Instruction)
    requires
        from.wf(),
        to.wf(),
    ensures
        r.program_id@ == spec_system_program_id(),
        r.accounts@.len() == 2,
        r.accounts@[0].addr@ == from@,
        r.accounts@[0].is_signer == true,
        r.accounts@[0].is_writable == true,
        r.accounts@[1].addr@ == to@,
        r.accounts@[1].is_signer == false,
        r.accounts@[1].is_writable == true,
        r.data@ == spec_transfer_data(lamports),
        r.wf(),
{
    let mut accounts: Vec<AccountRef> = Vec::new();
    accounts.push(AccountRef { addr: from.clone(), is_signer: true, is_writable: true });
    accounts.push(AccountRef { addr: to.clone(), is_signer: false, is_writable: true });
    let mut data = vstd::bytes::u32_to_le_bytes(2u32);
    let le = vstd::bytes::u64_to_le_bytes(lamports);
    data.extend_from_slice(le.as_slice());
    assert(data@ =~= spec_transfer_data(lamports));
    Instruction { program_id: system_program_id(), accounts, data }
}

/// Why decoding an account failed.
#[derive(Clone, Copy, Debug, PartialEq, Eq, Structural)]
pub enum DecodeError {
    /// The raw bytes are shorter than the layout requires.
    TooShort,
    /// The raw bytes extend past the layout's end.
    TrailingBytes,
}

/// The decoded form of a raw vault account: the owner's address bytes and
/// the balance, or the reason the bytes were rejected.
pub open spec fn spec_decode_vault(raw: Seq<u8>) -> Result<(Seq<u8>, u64), DecodeError> {
    if raw.len() < VAULT_ACCOUNT_LEN {
        Err(DecodeError::TooShort)
    } else if raw.len() > VAULT_ACCOUNT_LEN {
        Err(DecodeError::TrailingBytes)
    } else {
        Ok(
            (
                raw.subrange(8, 40),
                vstd::bytes::spec_u64_from_le_bytes(raw.subrange(40, VAULT_ACCOUNT_LEN as int)),
            ),
        )
    }
}

/// Decodes a vault account's state from its raw bytes: skips the 8-byte kind
/// tag, then reads the 32-byte owner address and the 8-byte little-endian
/// balance. Succeeds exactly on inputs of the layout's full length.
pub fn decode_account_state(raw: &Vec<u8>) -> (r: Result<Vault, DecodeError>)
    ensures
        spec_decode_vault(raw@) matches Ok(p) ==> (r matches Ok(v) && v.owner@ == p.0
            && v.balance == p.1 && v.wf()),
        spec_decode_vault(raw@) matches Err(e) ==> (r matches Err(e2) && e2 == e),
{
    if raw.len() < VAULT_ACCOUNT_LEN {
        return Err(DecodeError::TooShort);
    }
    if raw.len() > VAULT_ACCOUNT_LEN {
        return Err(DecodeError::TrailingBytes);
    }
    let mut owner_bytes: Vec<u8> = Vec::new();
    let mut i: usize = 8;
    while i < 40
        invariant
            raw@.len() == VAULT_ACCOUNT_LEN,
            8 <= i <= 40,
            owner_bytes@ == raw@.subrange(8, i as int),
        decreases 40 - i,
    {
        owner_bytes.push(raw[i]);
        assert(owner_bytes@ =~= raw@.subrange(8, i + 1));
        i += 1;
    }
    let owner = Address::from_bytes_exact(owner_bytes);
    let mut balance_bytes: Vec<u8> = Vec::new();
    let mut j: usize = 40;
    while j < VAULT_ACCOUNT_LEN
        invariant
            raw@.len() == VAULT_ACCOUNT_LEN,
            40 <= j <= VAULT_ACCOUNT_LEN,
            balance_bytes@ == raw@.subrange(40, j as int),
        decreases VAULT_ACCOUNT_LEN - j,
    {
        balance_bytes.push(raw[j]);
        assert(balance_bytes@ =~= raw@.subrange(40, j + 1));
        j += 1;
    }
    let balance = vstd::bytes::u64_from_le_bytes(balance_bytes.as_slice());
    Ok(Vault { owner, balance })
}

/// The encoded form of a vault account with the given kind tag, owner and
/// balance.
pub open spec fn spec_vault_bytes(tag: Seq<u8>, owner: Seq<u8>, balance: u64) -> Seq<u8> {
    tag + owner + vstd::bytes::spec_u64_to_le_bytes(balance)
}

/// Encodes a vault account's state as the remote program writes it: the
/// vault account's 8-byte kind tag, the owner address, and the balance in
/// little-endian.
pub fn encode_vault_state(owner: &Address, balance: u64) -> (r: Vec<u8>)
    requires
        owner.wf(),
    ensures
        r@ == spec_vault_bytes(spec_vault_account_tag(), owner@, balance),
        r@.len() == VAULT_ACCOUNT_LEN,
{
    let mut preimage: Vec<u8> = Vec::new();
    preimage.push(97u8);
    preimage.push(99u8);
    preimage.push(99u8);
    preimage.push(111u8);
    preimage.push(117u8);
    preimage.push(110u8);
    preimage.push(116u8);
    preimage.push(58u8);
    preimage.push(86u8);
    preimage.push(97u8);
    preimage.push(117u8);
    preimage.push(108u8);
    preimage.push(116u8);
    assert(preimage@ =~= vault_account_preimage());
    let digest = sha256(&preimage);
    let mut out: Vec<u8> = Vec::new();
    let mut i: usize = 0;
    while i < 8
        invariant
            digest@.len() == 32,
            i <= 8,
            out@ == digest@.take(i as int),
        decreases 8 - i,
    {
        out.push(digest[i]);
        assert(out@ =~= digest@.take(i + 1));
        i += 1;
    }
    out.extend_from_slice(owner.as_bytes().as_slice());
    let le = vstd::bytes::u64_to_le_bytes(balance);
    out.extend_from_slice(le.as_slice());
    assert(out@ =~= spec_vault_bytes(spec_vault_account_tag(), owner@, balance));
    out
}

/// Round trip: decoding an encoded vault account recovers exactly the owner
/// and balance that were written, for any 8-byte kind tag, any 32-byte owner
/// and any balance in the full 64-bit range.
pub proof fn lemma_vault_roundtrip(tag: Seq<u8>, owner: Seq<u8>, balance: u64)
    requires
        tag.len() == 8,
        owner.len() == ADDRESS_LEN,
    ensures
        spec_decode_vault(spec_vault_bytes(tag, owner, balance)) == Ok::<_, DecodeError>(
            (owner, balance),
        ),
{
    let raw = spec_vault_bytes(tag, owner, balance);
    vstd::bytes::lemma_auto_spec_u64_to_from_le_bytes();
    assert(raw.len() == VAULT_ACCOUNT_LEN);
    assert(raw.subrange(8, 40) =~= owner);
    assert(raw.subrange(40, VAULT_ACCOUNT_LEN as int)
        =~= vstd::bytes::spec_u64_to_le_bytes(balance));
}

} // verus!
