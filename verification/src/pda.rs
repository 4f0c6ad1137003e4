//! Program-derived addresses: an account address deterministically derived
//! from seeds and a program address, with no independent private key. The
//! vault program stores each user's vault at the address derived from the
//! seed `"vault"` and the user's own address.

use vstd::prelude::*;
use crate::addr::Address;

verus! {

/// The program-derived address and bump seed for the given seeds and
/// program, or nothing when no viable bump seed exists for them. The
/// derivation is a function of the seeds and the program address alone; its
/// definition is the chain's, not this library's.
pub uninterp spec fn find_program_address_of(seeds: Seq<Seq<u8>>, program: Seq<u8>) -> Option<
    (Seq<u8>, u8),
>;

/// Relies on solana_pubkey's `Pubkey::try_find_program_address`: the result
/// depends on the seeds and the program address alone; a derived address is
/// 32 bytes; `None` comes back instead of an answer when no viable bump
/// seed exists or the seeds break the derivation's limits.
#[verifier::external_body]
fn find_program_address(seeds: &Vec<Vec<u8>>, program_id: &Address) -> (r: Option<(Address, u8)>)
    requires
        program_id.wf(),
    ensures
        r matches Some(p) ==> find_program_address_of(
            seeds@.map_values(|s: Vec<u8>| s@),
            program_id@,
        ) == Some((p.0@, p.1)) && p.0.wf(),
        r is None ==> find_program_address_of(seeds@.map_values(|s: Vec<u8>| s@), program_id@)
            is None,
{
    let seed_slices: Vec<&[u8]> = seeds.iter().map(|s| s.as_slice()).collect();
    let arr: [u8; 32] = program_id.as_bytes().as_slice().try_into().unwrap();
    let pk = solana_sdk::pubkey::Pubkey::new_from_array(arr);
    solana_sdk::pubkey::Pubkey::try_find_program_address(seed_slices.as_slice(), &pk).map(
        |(a, bump)| (Address::from_bytes_exact(a.to_bytes().to_vec()), bump),
    )
}

/// The fixed seed prefixing every vault derivation: the bytes of `"vault"`.
pub open spec fn vault_seed() -> Seq<u8> {
    seq![118u8, 97, 117, 108, 116]
}

/// Derives the address of a user's vault account under the given program:
/// the program-derived address for the seeds `"vault"` and the user's
/// address bytes, with its bump seed. `None` when no viable bump seed
/// exists for this user and program.
pub fn derive_vault_pda(user: &Address, program_id: &Address) -> (r: Option<(Address, u8)>)
    requires
        user.wf(),
        program_id.wf(),
    ensures
        r matches Some(p) ==> find_program_address_of(seq![vault_seed(), user@], program_id@)
            == Some((p.0@, p.1)) && p.0.wf(),
        r is None ==> find_program_address_of(seq![vault_seed(), user@], program_id@) is None,
{
    let mut seed0: Vec<u8> = Vec::new();
    seed0.push(118u8);
    seed0.push(97u8);
    seed0.push(117u8);
    seed0.push(108u8);
    seed0.push(116u8);
    assert(seed0@ =~= vault_seed());
    let mut user_bytes: Vec<u8> = Vec::new();
    user_bytes.extend_from_slice(user.as_bytes().as_slice());
    assert(user_bytes@ =~= user@);
    let mut seeds: Vec<Vec<u8>> = Vec::new();
    seeds.push(seed0);
    seeds.push(user_bytes);
    assert(seeds@.map_values(|s: Vec<u8>| s@) =~= seq![vault_seed(), user@]);
    find_program_address(&seeds, program_id)
}

} // verus!
