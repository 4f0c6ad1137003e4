//! The transaction builder: assembles an unsigned operation from an
//! instruction list, a fee payer and a recent chain checkpoint, and signs it
//! with one keypair per required signer.

use vstd::prelude::*;
use crate::addr::Address;
use crate::codec::{AccountRefView, Instruction, InstructionView};

verus! {

/// Number of bytes in a chain checkpoint token.
pub const CHECKPOINT_LEN: usize = 32;

/// Number of bytes in a signature.
pub const SIGNATURE_LEN: usize = 64;

/// An opaque token proving a transaction was built against recent ledger
/// state. Expires after a bounded window; a rebuilt transaction needs a
/// freshly fetched one.
#[derive(Debug)]
pub struct ChainCheckpoint {
    bytes: Vec<u8>,
}

impl ChainCheckpoint {
    /// The token's byte content.
    pub closed spec fn view(&self) -> Seq<u8> {
        self.bytes@
    }

    /// A well-formed checkpoint holds exactly `CHECKPOINT_LEN` bytes.
    pub open spec fn wf(&self) -> bool {
        self@.len() == CHECKPOINT_LEN
    }

    /// Builds a checkpoint from its byte content; rejects any length other
    /// than `CHECKPOINT_LEN`.
    pub fn from_bytes(bytes: Vec<u8>) -> (r: Result<ChainCheckpoint, ()>)
        ensures
            bytes@.len() == CHECKPOINT_LEN ==> (r matches Ok(c) && c@ == bytes@ && c.wf()),
            bytes@.len() != CHECKPOINT_LEN ==> r is Err,
    {
        if bytes.len() == CHECKPOINT_LEN {
            Ok(ChainCheckpoint { bytes })
        } else {
            Err(())
        }
    }

    /// The byte content, as a vector reference.
    pub fn as_bytes(&self) -> (r: &Vec<u8>)
        ensures
            r@ == self@,
    {
        &self.bytes
    }
}

impl Clone for ChainCheckpoint {
    /// A clone has the same byte content.
    fn clone(&self) -> (r: Self)
        ensures
            r@ == self@,
    {
        let mut bytes: Vec<u8> = Vec::new();
        let n = self.bytes.len();
        let mut i: usize = 0;
        while i < n
            invariant
                n == self@.len(),
                i <= n,
                bytes@ == self@.take(i as int),
            decreases n - i,
        {
            bytes.push(self.bytes[i]);
            assert(bytes@ =~= self@.take(i + 1));
            i += 1;
        }
        assert(self@.take(n as int) =~= self@);
        ChainCheckpoint { bytes }
    }
}

/// One signature over the unsigned body, with the address it signs for.
#[derive(Debug)]
pub struct SigEntry {
    pub signer: Address,
    pub sig: Vec<u8>,
}

/// A signed transaction: an instruction list, a fee payer, a chain
/// checkpoint, and one signature per required signer.
#[derive(Debug)]
pub struct SignedTransaction {
    pub instructions: Vec<Instruction>,
    pub fee_payer: Address,
    pub checkpoint: ChainCheckpoint,
    pub signatures: Vec<SigEntry>,
}

/// Why building a transaction failed.
#[derive(Clone, Copy, Debug, PartialEq, Eq, Structural)]
pub enum BuildError {
    /// An account marked as a signer has no matching keypair among the
    /// signers handed to the builder.
    MissingSigner,
}

/// The serialized bytes of one account reference: its address followed by
/// its signer and writability flags.
pub open spec fn spec_account_bytes(a: AccountRefView) -> Seq<u8> {
    a.addr + seq![
        (if a.is_signer {
            1u8
        } else {
            0u8
        }),
        (if a.is_writable {
            1u8
        } else {
            0u8
        }),
    ]
}

/// The serialized bytes of an account reference list, in order.
pub open spec fn spec_accounts_bytes(s: Seq<AccountRefView>) -> Seq<u8>
    decreases s.len(),
{
    if s.len() == 0 {
        Seq::empty()
    } else {
        spec_account_bytes(s[0]) + spec_accounts_bytes(s.drop_first())
    }
}

/// The serialized bytes of one instruction: the target program, the counted
/// account reference list, and the counted payload.
pub open spec fn spec_instr_bytes(i: InstructionView) -> Seq<u8> {
    i.program_id + vstd::bytes::spec_u64_to_le_bytes(i.accounts.len() as u64)
        + spec_accounts_bytes(i.accounts) + vstd::bytes::spec_u64_to_le_bytes(i.data.len() as u64)
        + i.data
}

/// The serialized bytes of an instruction list, in the given order: the
/// order is semantically significant, since on-chain execution is
/// sequential.
pub open spec fn spec_instrs_bytes(s: Seq<InstructionView>) -> Seq<u8>
    decreases s.len(),
{
    if s.len() == 0 {
        Seq::empty()
    } else {
        spec_instr_bytes(s[0]) + spec_instrs_bytes(s.drop_first())
    }
}

/// The unsigned body every signer signs: the fee payer, the checkpoint, and
/// the counted instruction list.
pub open spec fn spec_unsigned_body(
    fee_payer: Seq<u8>,
    checkpoint: Seq<u8>,
    instrs: Seq<InstructionView>,
) -> Seq<u8> {
    fee_payer + checkpoint + vstd::bytes::spec_u64_to_le_bytes(instrs.len() as u64)
        + spec_instrs_bytes(instrs)
}

proof fn lemma_accounts_bytes_snoc(s: Seq<AccountRefView>, i: int)
    requires
        0 <= i < s.len(),
    ensures
        spec_accounts_bytes(s.take(i + 1)) == spec_accounts_bytes(s.take(i)) + spec_account_bytes(
            s[i],
        ),
    decreases i,
{
    assert(spec_accounts_bytes(Seq::<AccountRefView>::empty()) == Seq::<u8>::empty());
    if i == 0 {
        assert(s.take(1)[0] == s[0]);
        assert(s.take(1).drop_first() =~= Seq::<AccountRefView>::empty());
        assert(s.take(0) =~= Seq::<AccountRefView>::empty());
        assert(spec_accounts_bytes(s.take(1)) =~= spec_account_bytes(s[0]));
        assert(spec_accounts_bytes(s.take(0)) + spec_account_bytes(s[0]) =~= spec_account_bytes(
            s[0],
        ));
    } else {
        let t = s.drop_first();
        lemma_accounts_bytes_snoc(t, i - 1);
        assert(s.take(i + 1).drop_first() =~= t.take(i));
        assert(s.take(i).drop_first() =~= t.take(i - 1));
        assert(s.take(i + 1)[0] == s[0]);
        assert(s.take(i)[0] == s[0]);
        assert(t[i - 1] == s[i]);
        assert(spec_accounts_bytes(s.take(i + 1)) == spec_account_bytes(s[0])
            + spec_accounts_bytes(t.take(i)));
        assert(spec_accounts_bytes(s.take(i)) == spec_account_bytes(s[0]) + spec_accounts_bytes(
            t.take(i - 1),
        ));
        assert(spec_account_bytes(s[0]) + (spec_accounts_bytes(t.take(i - 1))
            + spec_account_bytes(s[i])) =~= (spec_account_bytes(s[0]) + spec_accounts_bytes(
            t.take(i - 1),
        )) + spec_account_bytes(s[i]));
    }
}

proof fn lemma_instrs_bytes_snoc(s: Seq<InstructionView>, i: int)
    requires
        0 <= i < s.len(),
    ensures
        spec_instrs_bytes(s.take(i + 1)) == spec_instrs_bytes(s.take(i)) + spec_instr_bytes(s[i]),
    decreases i,
{
    assert(spec_instrs_bytes(Seq::<InstructionView>::empty()) == Seq::<u8>::empty());
    if i == 0 {
        assert(s.take(1)[0] == s[0]);
        assert(s.take(1).drop_first() =~= Seq::<InstructionView>::empty());
        assert(s.take(0) =~= Seq::<InstructionView>::empty());
        assert(spec_instrs_bytes(s.take(1)) =~= spec_instr_bytes(s[0]));
        assert(spec_instrs_bytes(s.take(0)) + spec_instr_bytes(s[0]) =~= spec_instr_bytes(s[0]));
    } else {
        let t = s.drop_first();
        lemma_instrs_bytes_snoc(t, i - 1);
        assert(s.take(i + 1).drop_first() =~= t.take(i));
        assert(s.take(i).drop_first() =~= t.take(i - 1));
        assert(s.take(i + 1)[0] == s[0]);
        assert(s.take(i)[0] == s[0]);
        assert(t[i - 1] == s[i]);
        assert(spec_instrs_bytes(s.take(i + 1)) == spec_instr_bytes(s[0]) + spec_instrs_bytes(
            t.take(i),
        ));
        assert(spec_instrs_bytes(s.take(i)) == spec_instr_bytes(s[0]) + spec_instrs_bytes(
            t.take(i - 1),
        ));
        assert(spec_instr_bytes(s[0]) + (spec_instrs_bytes(t.take(i - 1)) + spec_instr_bytes(s[i]))
            =~= (spec_instr_bytes(s[0]) + spec_instrs_bytes(t.take(i - 1))) + spec_instr_bytes(
            s[i],
        ));
    }
}

fn serialize_account(a: &crate::codec::AccountRef) -> (r: Vec<u8>)
    ensures
        r@ == spec_account_bytes(a@),
{
    let mut out: Vec<u8> = Vec::new();
    out.extend_from_slice(a.addr.as_bytes().as_slice());
    out.push(if a.is_signer {
        1u8
    } else {
        0u8
    });
    out.push(if a.is_writable {
        1u8
    } else {
        0u8
    });
    assert(out@ =~= spec_account_bytes(a@));
    out
}

fn serialize_instruction(ix: &Instruction) -> (r: Vec<u8>)
    requires
        ix.accounts@.len() <= u64::MAX,
        ix.data@.len() <= u64::MAX,
    ensures
        r@ == spec_instr_bytes(ix@),
{
    let ghost views: Seq<AccountRefView> = ix@.accounts;
    let mut out: Vec<u8> = Vec::new();
    out.extend_from_slice(ix.program_id.as_bytes().as_slice());
    let n_accounts = ix.accounts.len();
    let le_n = vstd::bytes::u64_to_le_bytes(n_accounts as u64);
    out.extend_from_slice(le_n.as_slice());
    let mut i: usize = 0;
    proof {
        assert(spec_accounts_bytes(Seq::<AccountRefView>::empty()) == Seq::<u8>::empty());
        assert(views.take(0) =~= Seq::<AccountRefView>::empty());
        assert(out@ =~= ix.program_id@ + vstd::bytes::spec_u64_to_le_bytes(views.len() as u64)
            + spec_accounts_bytes(views.take(0)));
    }
    while i < n_accounts
        invariant
            n_accounts == ix.accounts@.len(),
            views == ix@.accounts,
            views.len() == n_accounts,
            i <= n_accounts,
            out@ == ix.program_id@ + vstd::bytes::spec_u64_to_le_bytes(views.len() as u64)
                + spec_accounts_bytes(views.take(i as int)),
        decreases n_accounts - i,
    {
        let ab = serialize_account(&ix.accounts[i]);
        out.extend_from_slice(ab.as_slice());
        proof {
            assert(views[i as int] == ix.accounts@[i as int]@);
            lemma_accounts_bytes_snoc(views, i as int);
            assert(out@ =~= ix.program_id@ + vstd::bytes::spec_u64_to_le_bytes(
                views.len() as u64,
            ) + spec_accounts_bytes(views.take(i + 1)));
        }
        i += 1;
    }
    assert(views.take(n_accounts as int) =~= views);
    let le_d = vstd::bytes::u64_to_le_bytes(ix.data.len() as u64);
    out.extend_from_slice(le_d.as_slice());
    out.extend_from_slice(ix.data.as_slice());
    assert(out@ =~= spec_instr_bytes(ix@));
    out
}

/// Serializes the unsigned body that every signer signs. A function of the
/// fee payer, the checkpoint and the instruction list alone.
pub fn serialize_unsigned(
    instructions: &Vec<Instruction>,
    fee_payer: &Address,
    checkpoint: &ChainCheckpoint,
) -> (r: Vec<u8>)
    requires
        instructions@.len() <= u64::MAX,
        forall|i: int| 0 <= i < instructions@.len() ==> (#[trigger] instructions@[i]).accounts@.len()
            <= u64::MAX,
        forall|i: int| 0 <= i < instructions@.len() ==> (#[trigger] instructions@[i]).data@.len()
            <= u64::MAX,
    ensures
        r@ == spec_unsigned_body(
            fee_payer@,
            checkpoint@,
            instructions@.map_values(|ix: Instruction| ix@),
        ),
{
    let ghost views: Seq<InstructionView> = instructions@.map_values(|ix: Instruction| ix@);
    let mut out: Vec<u8> = Vec::new();
    out.extend_from_slice(fee_payer.as_bytes().as_slice());
    out.extend_from_slice(checkpoint.as_bytes().as_slice());
    let n = instructions.len();
    let le_n = vstd::bytes::u64_to_le_bytes(n as u64);
    out.extend_from_slice(le_n.as_slice());
    let mut i: usize = 0;
    proof {
        assert(spec_instrs_bytes(Seq::<InstructionView>::empty()) == Seq::<u8>::empty());
        assert(views.take(0) =~= Seq::<InstructionView>::empty());
        assert(out@ =~= fee_payer@ + checkpoint@ + vstd::bytes::spec_u64_to_le_bytes(
            views.len() as u64,
        ) + spec_instrs_bytes(views.take(0)));
    }
    while i < n
        invariant
            n == instructions@.len(),
            views == instructions@.map_values(|ix: Instruction| ix@),
            views.len() == n,
            i <= n,
            forall|j: int| 0 <= j < n ==> (#[trigger] instructions@[j]).accounts@.len() <= u64::MAX,
            forall|j: int| 0 <= j < n ==> (#[trigger] instructions@[j]).data@.len() <= u64::MAX,
            out@ == fee_payer@ + checkpoint@ + vstd::bytes::spec_u64_to_le_bytes(views.len() as u64)
                + spec_instrs_bytes(views.take(i as int)),
        decreases n - i,
    {
        let ib = serialize_instruction(&instructions[i]);
        out.extend_from_slice(ib.as_slice());
        proof {
            assert(views[i as int] == instructions@[i as int]@);
            lemma_instrs_bytes_snoc(views, i as int);
            assert(out@ =~= fee_payer@ + checkpoint@ + vstd::bytes::spec_u64_to_le_bytes(
                views.len() as u64,
            ) + spec_instrs_bytes(views.take(i + 1)));
        }
        i += 1;
    }
    assert(views.take(n as int) =~= views);
    out
}

/// The byte contents of a list of addresses.
pub open spec fn addrs_view(s: Seq<Address>) -> Seq<Seq<u8>> {
    s.map_values(|a: Address| a@)
}

/// Adds an address to a signer list unless it is already there.
pub open spec fn spec_add_signer(acc: Seq<Seq<u8>>, a: Seq<u8>) -> Seq<Seq<u8>> {
    if acc.contains(a) {
        acc
    } else {
        acc.push(a)
    }
}

/// Folds the signer-marked addresses of an account reference list into an
/// accumulated signer list, keeping first-seen order and dropping
/// duplicates.
pub open spec fn spec_signers_in_accounts(acc: Seq<Seq<u8>>, accounts: Seq<AccountRefView>) -> Seq<
    Seq<u8>,
>
    decreases accounts.len(),
{
    if accounts.len() == 0 {
        acc
    } else {
        spec_signers_in_accounts(
            if accounts[0].is_signer {
                spec_add_signer(acc, accounts[0].addr)
            } else {
                acc
            },
            accounts.drop_first(),
        )
    }
}

/// Folds every instruction's signer-marked addresses into an accumulated
/// signer list.
pub open spec fn spec_signers_in_instrs(acc: Seq<Seq<u8>>, instrs: Seq<InstructionView>) -> Seq<
    Seq<u8>,
>
    decreases instrs.len(),
{
    if instrs.len() == 0 {
        acc
    } else {
        spec_signers_in_instrs(
            spec_signers_in_accounts(acc, instrs[0].accounts),
            instrs.drop_first(),
        )
    }
}

/// The addresses that must sign a transaction: the fee payer first, then
/// every distinct signer-marked account across the instructions, in
/// first-seen order.
pub open spec fn spec_required_signers(fee_payer: Seq<u8>, instrs: Seq<InstructionView>) -> Seq<
    Seq<u8>,
> {
    spec_signers_in_instrs(seq![fee_payer], instrs)
}

proof fn lemma_signers_in_accounts_step(acc: Seq<Seq<u8>>, accounts: Seq<AccountRefView>, i: int)
    requires
        0 <= i < accounts.len(),
    ensures
        spec_signers_in_accounts(acc, accounts.take(i + 1)) == (if accounts[i].is_signer {
            spec_add_signer(spec_signers_in_accounts(acc, accounts.take(i)), accounts[i].addr)
        } else {
            spec_signers_in_accounts(acc, accounts.take(i))
        }),
    decreases i,
{
    let acc1 = if accounts[0].is_signer {
        spec_add_signer(acc, accounts[0].addr)
    } else {
        acc
    };
    if i == 0 {
        assert(accounts.take(1)[0] == accounts[0]);
        assert(accounts.take(1).drop_first() =~= Seq::<AccountRefView>::empty());
        assert(accounts.take(0) =~= Seq::<AccountRefView>::empty());
        assert(spec_signers_in_accounts(acc1, Seq::<AccountRefView>::empty()) == acc1);
        assert(spec_signers_in_accounts(acc, accounts.take(0)) == acc);
        assert(spec_signers_in_accounts(acc, accounts.take(1)) == acc1);
    } else {
        let t = accounts.drop_first();
        lemma_signers_in_accounts_step(acc1, t, i - 1);
        assert(accounts.take(i + 1).drop_first() =~= t.take(i));
        assert(accounts.take(i).drop_first() =~= t.take(i - 1));
        assert(accounts.take(i + 1)[0] == accounts[0]);
        assert(accounts.take(i)[0] == accounts[0]);
        assert(t[i - 1] == accounts[i]);
        assert(spec_signers_in_accounts(acc, accounts.take(i + 1)) == spec_signers_in_accounts(
            acc1,
            t.take(i),
        ));
        assert(spec_signers_in_accounts(acc, accounts.take(i)) == spec_signers_in_accounts(
            acc1,
            t.take(i - 1),
        ));
    }
}

proof fn lemma_signers_in_instrs_step(acc: Seq<Seq<u8>>, instrs: Seq<InstructionView>, i: int)
    requires
        0 <= i < instrs.len(),
    ensures
        spec_signers_in_instrs(acc, instrs.take(i + 1)) == spec_signers_in_accounts(
            spec_signers_in_instrs(acc, instrs.take(i)),
            instrs[i].accounts,
        ),
    decreases i,
{
    let acc1 = spec_signers_in_accounts(acc, instrs[0].accounts);
    if i == 0 {
        assert(instrs.take(1)[0] == instrs[0]);
        assert(instrs.take(1).drop_first() =~= Seq::<InstructionView>::empty());
        assert(instrs.take(0) =~= Seq::<InstructionView>::empty());
        assert(spec_signers_in_instrs(acc1, Seq::<InstructionView>::empty()) == acc1);
        assert(spec_signers_in_instrs(acc, instrs.take(0)) == acc);
        assert(spec_signers_in_instrs(acc, instrs.take(1)) == acc1);
    } else {
        let t = instrs.drop_first();
        lemma_signers_in_instrs_step(acc1, t, i - 1);
        assert(instrs.take(i + 1).drop_first() =~= t.take(i));
        assert(instrs.take(i).drop_first() =~= t.take(i - 1));
        assert(instrs.take(i + 1)[0] == instrs[0]);
        assert(instrs.take(i)[0] == instrs[0]);
        assert(t[i - 1] == instrs[i]);
        assert(spec_signers_in_instrs(acc, instrs.take(i + 1)) == spec_signers_in_instrs(
            acc1,
            t.take(i),
        ));
        assert(spec_signers_in_instrs(acc, instrs.take(i)) == spec_signers_in_instrs(
            acc1,
            t.take(i - 1),
        ));
    }
}

proof fn lemma_add_signer_no_dup(acc: Seq<Seq<u8>>, a: Seq<u8>)
    requires
        acc.no_duplicates(),
    ensures
        spec_add_signer(acc, a).no_duplicates(),
{
    if !acc.contains(a) {
        let r = acc.push(a);
        assert forall|i: int, j: int| 0 <= i < r.len() && 0 <= j < r.len() && i != j implies r[i]
            != r[j] by {
            if i < acc.len() && j < acc.len() {
            } else if i == acc.len() {
                assert(r[j] == acc[j]);
                assert(acc.contains(acc[j]));
            } else {
                assert(r[i] == acc[i]);
                assert(acc.contains(acc[i]));
            }
        }
    }
}

proof fn lemma_signers_in_accounts_no_dup(acc: Seq<Seq<u8>>, accounts: Seq<AccountRefView>)
    requires
        acc.no_duplicates(),
    ensures
        spec_signers_in_accounts(acc, accounts).no_duplicates(),
    decreases accounts.len(),
{
    if accounts.len() > 0 {
        let acc1 = if accounts[0].is_signer {
            spec_add_signer(acc, accounts[0].addr)
        } else {
            acc
        };
        lemma_add_signer_no_dup(acc, accounts[0].addr);
        lemma_signers_in_accounts_no_dup(acc1, accounts.drop_first());
    }
}

proof fn lemma_signers_in_instrs_no_dup(acc: Seq<Seq<u8>>, instrs: Seq<InstructionView>)
    requires
        acc.no_duplicates(),
    ensures
        spec_signers_in_instrs(acc, instrs).no_duplicates(),
    decreases instrs.len(),
{
    if instrs.len() > 0 {
        lemma_signers_in_accounts_no_dup(acc, instrs[0].accounts);
        lemma_signers_in_instrs_no_dup(
            spec_signers_in_accounts(acc, instrs[0].accounts),
            instrs.drop_first(),
        );
    }
}

/// One signature per signer: the required-signer list never names an
/// address twice, so a built transaction carries exactly one signature for
/// each distinct address that must sign.
pub proof fn lemma_required_signers_distinct(fee_payer: Seq<u8>, instrs: Seq<InstructionView>)
    ensures
        spec_required_signers(fee_payer, instrs).no_duplicates(),
{
    assert(seq![fee_payer].no_duplicates());
    lemma_signers_in_instrs_no_dup(seq![fee_payer], instrs);
}

proof fn lemma_add_signer_contains(acc: Seq<Seq<u8>>, x: Seq<u8>, a: Seq<u8>)
    ensures
        spec_add_signer(acc, x).contains(a) <==> (acc.contains(a) || a == x),
{
    if !acc.contains(x) {
        let r = acc.push(x);
        if acc.contains(a) {
            let j = choose|j: int| 0 <= j < acc.len() && acc[j] == a;
            assert(r[j] == a);
        }
        if a == x {
            assert(r[acc.len() as int] == a);
        }
        if r.contains(a) {
            let j = choose|j: int| 0 <= j < r.len() && r[j] == a;
            if j < acc.len() {
                assert(acc[j] == a);
            }
        }
    }
}

proof fn lemma_signers_in_accounts_contains(
    acc: Seq<Seq<u8>>,
    accounts: Seq<AccountRefView>,
    a: Seq<u8>,
)
    ensures
        spec_signers_in_accounts(acc, accounts).contains(a) <==> (acc.contains(a) || exists|k: int|
            0 <= k < accounts.len() && (#[trigger] accounts[k]).is_signer && accounts[k].addr == a),
    decreases accounts.len(),
{
    if accounts.len() > 0 {
        let acc1 = if accounts[0].is_signer {
            spec_add_signer(acc, accounts[0].addr)
        } else {
            acc
        };
        let t = accounts.drop_first();
        lemma_add_signer_contains(acc, accounts[0].addr, a);
        lemma_signers_in_accounts_contains(acc1, t, a);
        if exists|k: int| 0 <= k < t.len() && (#[trigger] t[k]).is_signer && t[k].addr == a {
            let k = choose|k: int| 0 <= k < t.len() && (#[trigger] t[k]).is_signer && t[k].addr
                == a;
            assert(accounts[k + 1].is_signer && accounts[k + 1].addr == a);
        }
        if exists|k: int|
            0 <= k < accounts.len() && (#[trigger] accounts[k]).is_signer && accounts[k].addr
                == a {
            let k = choose|k: int|
                0 <= k < accounts.len() && (#[trigger] accounts[k]).is_signer && accounts[k].addr
                    == a;
            if k > 0 {
                assert(t[k - 1].is_signer && t[k - 1].addr == a);
            }
        }
    }
}

proof fn lemma_signers_in_instrs_contains(
    acc: Seq<Seq<u8>>,
    instrs: Seq<InstructionView>,
    a: Seq<u8>,
)
    ensures
        spec_signers_in_instrs(acc, instrs).contains(a) <==> (acc.contains(a) || exists|
            i: int,
            k: int,
        |
            0 <= i < instrs.len() && 0 <= k < (#[trigger] instrs[i]).accounts.len() && (
            #[trigger] instrs[i].accounts[k]).is_signer && instrs[i].accounts[k].addr == a),
    decreases instrs.len(),
{
    if instrs.len() > 0 {
        let acc1 = spec_signers_in_accounts(acc, instrs[0].accounts);
        let t = instrs.drop_first();
        lemma_signers_in_accounts_contains(acc, instrs[0].accounts, a);
        lemma_signers_in_instrs_contains(acc1, t, a);
        if exists|i: int, k: int|
            0 <= i < t.len() && 0 <= k < (#[trigger] t[i]).accounts.len() && (
            #[trigger] t[i].accounts[k]).is_signer && t[i].accounts[k].addr == a {
            let (i, k) = choose|i: int, k: int|
                0 <= i < t.len() && 0 <= k < (#[trigger] t[i]).accounts.len() && (
                #[trigger] t[i].accounts[k]).is_signer && t[i].accounts[k].addr == a;
            assert(instrs[i + 1].accounts[k].is_signer && instrs[i + 1].accounts[k].addr == a);
        }
        if exists|i: int, k: int|
            0 <= i < instrs.len() && 0 <= k < (#[trigger] instrs[i]).accounts.len() && (
            #[trigger] instrs[i].accounts[k]).is_signer && instrs[i].accounts[k].addr == a {
            let (i, k) = choose|i: int, k: int|
                0 <= i < instrs.len() && 0 <= k < (#[trigger] instrs[i]).accounts.len() && (
                #[trigger] instrs[i].accounts[k]).is_signer && instrs[i].accounts[k].addr == a;
            if i > 0 {
                assert(t[i - 1].accounts[k].is_signer && t[i - 1].accounts[k].addr == a);
            }
        }
    }
}

/// The required-signer list holds exactly the fee payer and the addresses
/// of the signer-marked accounts, each once: together with its freedom from
/// duplicates, a built transaction carries exactly one signature for the
/// fee payer and one for each distinct account marked as a signer.
pub proof fn lemma_required_signers_exact(
    fee_payer: Seq<u8>,
    instrs: Seq<InstructionView>,
    a: Seq<u8>,
)
    ensures
        spec_required_signers(fee_payer, instrs).contains(a) <==> (a == fee_payer || exists|
            i: int,
            k: int,
        |
            0 <= i < instrs.len() && 0 <= k < (#[trigger] instrs[i]).accounts.len() && (
            #[trigger] instrs[i].accounts[k]).is_signer && instrs[i].accounts[k].addr == a),
{
    lemma_signers_in_instrs_contains(seq![fee_payer], instrs, a);
    assert(seq![fee_payer].contains(a) <==> a == fee_payer) by {
        if a == fee_payer {
            assert(seq![fee_payer][0] == a);
        }
    }
}

/// Whether `list` holds an address with `a`'s byte content.
pub fn contains_addr(list: &Vec<Address>, a: &Address) -> (r: bool)
    ensures
        r == addrs_view(list@).contains(a@),
{
    let mut i: usize = 0;
    while i < list.len()
        invariant
            i <= list@.len(),
            forall|j: int| 0 <= j < i ==> addrs_view(list@)[j] != a@,
        decreases list@.len() - i,
    {
        if list[i].eq_addr(a) {
            assert(addrs_view(list@)[i as int] == a@);
            return true;
        }
        assert(addrs_view(list@)[i as int] == list@[i as int]@);
        i += 1;
    }
    assert(forall|j: int| 0 <= j < addrs_view(list@).len() ==> addrs_view(list@)[j] != a@);
    false
}

fn push_signer(acc: &mut Vec<Address>, a: &Address)
    requires
        a.wf(),
        forall|j: int| 0 <= j < old(acc)@.len() ==> (#[trigger] old(acc)@[j]).wf(),
    ensures
        addrs_view(final(acc)@) == spec_add_signer(addrs_view(old(acc)@), a@),
        forall|j: int| 0 <= j < final(acc)@.len() ==> (#[trigger] final(acc)@[j]).wf(),
{
    if !contains_addr(acc, a) {
        acc.push(a.clone());
        assert(addrs_view(acc@) =~= addrs_view(old(acc)@).push(a@));
    }
}

/// Collects the addresses that must sign: the fee payer first, then every
/// distinct signer-marked account of the instructions, in first-seen order.
pub fn collect_required_signers(instructions: &Vec<Instruction>, fee_payer: &Address) -> (r: Vec<
    Address,
>)
    requires
        fee_payer.wf(),
        forall|i: int| 0 <= i < instructions@.len() ==> (#[trigger] instructions@[i]).wf(),
    ensures
        addrs_view(r@) == spec_required_signers(
            fee_payer@,
            instructions@.map_values(|ix: Instruction| ix@),
        ),
        forall|i: int| 0 <= i < r@.len() ==> (#[trigger] r@[i]).wf(),
{
    let ghost views: Seq<InstructionView> = instructions@.map_values(|ix: Instruction| ix@);
    let mut acc: Vec<Address> = Vec::new();
    acc.push(fee_payer.clone());
    assert(addrs_view(acc@) =~= seq![fee_payer@]);
    let mut i: usize = 0;
    proof {
        assert(views.take(0) =~= Seq::<InstructionView>::empty());
    }
    while i < instructions.len()
        invariant
            views == instructions@.map_values(|ix: Instruction| ix@),
            views.len() == instructions@.len(),
            i <= instructions@.len(),
            forall|j: int| 0 <= j < instructions@.len() ==> (#[trigger] instructions@[j]).wf(),
            addrs_view(acc@) == spec_signers_in_instrs(seq![fee_payer@], views.take(i as int)),
            forall|j: int| 0 <= j < acc@.len() ==> (#[trigger] acc@[j]).wf(),
        decreases instructions@.len() - i,
    {
        let ix = &instructions[i];
        let ghost accounts_v: Seq<AccountRefView> = ix@.accounts;
        let ghost acc_before: Seq<Seq<u8>> = addrs_view(acc@);
        let mut k: usize = 0;
        proof {
            assert(accounts_v.take(0) =~= Seq::<AccountRefView>::empty());
        }
        while k < ix.accounts.len()
            invariant
                accounts_v == ix@.accounts,
                accounts_v.len() == ix.accounts@.len(),
                k <= ix.accounts@.len(),
                ix.wf(),
                addrs_view(acc@) == spec_signers_in_accounts(acc_before, accounts_v.take(k as int)),
                forall|j: int| 0 <= j < acc@.len() ==> (#[trigger] acc@[j]).wf(),
            decreases ix.accounts@.len() - k,
        {
            if ix.accounts[k].is_signer {
                assert(accounts_v[k as int] == ix.accounts@[k as int]@);
                assert(accounts_v[k as int].wf());
                push_signer(&mut acc, &ix.accounts[k].addr);
            }
            proof {
                assert(accounts_v[k as int] == ix.accounts@[k as int]@);
                lemma_signers_in_accounts_step(acc_before, accounts_v, k as int);
            }
            k += 1;
        }
        proof {
            assert(accounts_v.take(ix.accounts@.len() as int) =~= accounts_v);
            assert(views[i as int] == instructions@[i as int]@);
            lemma_signers_in_instrs_step(seq![fee_payer@], views, i as int);
        }
        i += 1;
    }
    assert(views.take(instructions@.len() as int) =~= views);
    acc
}

/// Relies on solana_sdk's `Keypair` as an opaque signing capability: the
/// library never reads its fields, only derives its address and signs with
/// it through the wrappers below.
#[verifier::external_type_specification]
#[verifier::external_body]
pub struct ExKeypair(solana_sdk::signature::Keypair);

/// The address the signing backend derives for a keypair. It is a function
/// of the keypair alone — the public key derived from its secret — and its
/// definition is the signature scheme's, not this library's.
pub uninterp spec fn keypair_addr_of(kp: solana_sdk::signature::Keypair) -> Seq<u8>;

/// Relies on solana_sdk's `Keypair` and its `Signer::pubkey`: a keypair's
/// public key depends on the keypair alone and is a 32-byte address.
#[verifier::external_body]
fn keypair_address(kp: &solana_sdk::signature::Keypair) -> (r: Address)
    ensures
        r@ == keypair_addr_of(*kp),
        r.wf(),
{
    let pk = solana_sdk::signature::Signer::pubkey(kp);
    Address::from_bytes_exact(pk.to_bytes().to_vec())
}

/// Whether some keypair in `signers` has `a` as the address the signing
/// backend derives for it.
pub open spec fn spec_has_keypair(
    signers: Seq<solana_sdk::signature::Keypair>,
    a: Seq<u8>,
) -> bool {
    exists|j: int| 0 <= j < signers.len() && keypair_addr_of(#[trigger] signers[j]) == a
}

/// Whether some address that must sign — the fee payer or a signer-marked
/// account — has no matching keypair among `signers`.
pub open spec fn spec_missing_signer(
    fee_payer: Seq<u8>,
    instrs: Seq<InstructionView>,
    signers: Seq<solana_sdk::signature::Keypair>,
) -> bool {
    exists|a: Seq<u8>| #![auto]
        spec_required_signers(fee_payer, instrs).contains(a) && !spec_has_keypair(signers, a)
}

/// Relies on solana_sdk's `Keypair` and its `Signer::sign_message`: an
/// ed25519 signature is 64 bytes.
#[verifier::external_body]
fn keypair_sign(kp: &solana_sdk::signature::Keypair, message: &Vec<u8>) -> (r: Vec<u8>)
    ensures
        r@.len() == SIGNATURE_LEN,
{
    let sig = solana_sdk::signature::Signer::sign_message(kp, message.as_slice());
    sig.as_ref().to_vec()
}

/// Assembles and signs a transaction. Instructions keep the given order;
/// `fee_payer` is the first account to sign; the checkpoint proves
/// freshness. Every address that must sign — the fee payer and each
/// signer-marked account — gets exactly one signature over the serialized
/// unsigned body, produced by a keypair in `signers` whose public key is
/// that address. The build fails, with `MissingSigner`, exactly when some
/// required address has no matching keypair.
pub fn build(
    instructions: Vec<Instruction>,
    fee_payer: &Address,
    checkpoint: &ChainCheckpoint,
    signers: &Vec<solana_sdk::signature::Keypair>,
) -> (r: Result<SignedTransaction, BuildError>)
    requires
        fee_payer.wf(),
        checkpoint.wf(),
        instructions@.len() <= u64::MAX,
        forall|i: int| 0 <= i < instructions@.len() ==> (#[trigger] instructions@[i]).wf(),
        forall|i: int| 0 <= i < instructions@.len() ==> (#[trigger] instructions@[i]).accounts@.len()
            <= u64::MAX,
        forall|i: int| 0 <= i < instructions@.len() ==> (#[trigger] instructions@[i]).data@.len()
            <= u64::MAX,
    ensures
        r is Err <==> spec_missing_signer(
            fee_payer@,
            instructions@.map_values(|ix: Instruction| ix@),
            signers@,
        ),
        r matches Ok(tx) ==> {
            &&& tx.instructions == instructions
            &&& tx.fee_payer@ == fee_payer@
            &&& tx.checkpoint@ == checkpoint@
            &&& addrs_view(tx.signatures@.map_values(|e: SigEntry| e.signer))
                == spec_required_signers(
                fee_payer@,
                instructions@.map_values(|ix: Instruction| ix@),
            )
            &&& tx.signatures@.len() == spec_required_signers(
                fee_payer@,
                instructions@.map_values(|ix: Instruction| ix@),
            ).len()
            &&& forall|i: int| 0 <= i < tx.signatures@.len() ==> (
            #[trigger] tx.signatures@[i]).sig@.len() == SIGNATURE_LEN
            &&& forall|i: int| 0 <= i < tx.signatures@.len() ==> spec_has_keypair(
                signers@,
                (#[trigger] tx.signatures@[i]).signer@,
            )
        },
{
    let mut available: Vec<Address> = Vec::new();
    let mut s: usize = 0;
    while s < signers.len()
        invariant
            s <= signers@.len(),
            available@.len() == s,
            forall|j: int| 0 <= j < available@.len() ==> (#[trigger] available@[j]).wf(),
            forall|j: int| 0 <= j < available@.len() ==> (#[trigger] available@[j])@
                == keypair_addr_of(signers@[j]),
        decreases signers@.len() - s,
    {
        available.push(keypair_address(&signers[s]));
        s += 1;
    }
    let required = collect_required_signers(&instructions, fee_payer);
    let ghost req_view: Seq<Seq<u8>> = spec_required_signers(
        fee_payer@,
        instructions@.map_values(|ix: Instruction| ix@),
    );
    let message = serialize_unsigned(&instructions, fee_payer, checkpoint);
    let mut signatures: Vec<SigEntry> = Vec::new();
    let mut i: usize = 0;
    while i < required.len()
        invariant
            req_view == spec_required_signers(
                fee_payer@,
                instructions@.map_values(|ix: Instruction| ix@),
            ),
            addrs_view(required@) == req_view,
            forall|j: int| 0 <= j < required@.len() ==> (#[trigger] required@[j]).wf(),
            forall|j: int| 0 <= j < available@.len() ==> (#[trigger] available@[j]).wf(),
            available@.len() == signers@.len(),
            forall|j: int| 0 <= j < available@.len() ==> (#[trigger] available@[j])@
                == keypair_addr_of(signers@[j]),
            i <= required@.len(),
            signatures@.len() == i,
            forall|j: int| 0 <= j < i ==> (#[trigger] signatures@[j]).signer@ == req_view[j],
            forall|j: int| 0 <= j < i ==> (#[trigger] signatures@[j]).sig@.len() == SIGNATURE_LEN,
            forall|k: int| 0 <= k < i ==> #[trigger] spec_has_keypair(signers@, req_view[k]),
        decreases required@.len() - i,
    {
        let target = &required[i];
        assert(req_view[i as int] == required@[i as int]@);
        let mut found: Option<usize> = None;
        let mut j: usize = 0;
        while j < available.len()
            invariant
                j <= available@.len(),
                available@.len() == signers@.len(),
                forall|j2: int| 0 <= j2 < available@.len() ==> (#[trigger] available@[j2])@
                    == keypair_addr_of(signers@[j2]),
                target@ == req_view[i as int],
                found is None ==> forall|j2: int| 0 <= j2 < j ==> (#[trigger] available@[j2])@
                    != target@,
                found matches Some(x) ==> x < signers@.len() && available@[x as int]@ == target@,
            decreases available@.len() - j,
        {
            if found.is_none() && available[j].eq_addr(target) {
                found = Some(j);
            }
            j += 1;
        }
        match found {
            Some(idx) => {
                let sig = keypair_sign(&signers[idx], &message);
                proof {
                    assert(keypair_addr_of(signers@[idx as int]) == req_view[i as int]);
                    assert(spec_has_keypair(signers@, req_view[i as int]));
                }
                signatures.push(SigEntry { signer: target.clone(), sig });
            },
            None => {
                proof {
                    let a = req_view[i as int];
                    assert(req_view.contains(a));
                    assert(!spec_has_keypair(signers@, a)) by {
                        if spec_has_keypair(signers@, a) {
                            let j0 = choose|j0: int|
                                0 <= j0 < signers@.len() && keypair_addr_of(
                                    #[trigger] signers@[j0],
                                ) == a;
                            assert(available@[j0]@ == a);
                        }
                    }
                    assert(spec_missing_signer(
                        fee_payer@,
                        instructions@.map_values(|ix: Instruction| ix@),
                        signers@,
                    )) by {
                        assert(spec_required_signers(
                            fee_payer@,
                            instructions@.map_values(|ix: Instruction| ix@),
                        ).contains(a) && !spec_has_keypair(signers@, a));
                    }
                }
                return Err(BuildError::MissingSigner);
            },
        }
        i += 1;
    }
    proof {
        assert(!spec_missing_signer(
            fee_payer@,
            instructions@.map_values(|ix: Instruction| ix@),
            signers@,
        )) by {
            if spec_missing_signer(
                fee_payer@,
                instructions@.map_values(|ix: Instruction| ix@),
                signers@,
            ) {
                let a = choose|a: Seq<u8>| #![auto]
                    req_view.contains(a) && !spec_has_keypair(signers@, a);
                let k = choose|k: int| 0 <= k < req_view.len() && req_view[k] == a;
                assert(spec_has_keypair(signers@, req_view[k]));
            }
        }
    }
    let tx = SignedTransaction {
        instructions,
        fee_payer: fee_payer.clone(),
        checkpoint: checkpoint.clone(),
        signatures,
    };
    assert(addrs_view(tx.signatures@.map_values(|e: SigEntry| e.signer)) =~= req_view);
    Ok(tx)
}

} // verus!


