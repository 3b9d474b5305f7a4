//! The derived-address resolver.
//!
//! Storage slots are placed at addresses computed deterministically from seed
//! tuples: the counter slot from the authority's address alone, and the
//! extra-account-metas slot from a fixed tag plus the mint's address.  The
//! same seed tuple, extended with the bump byte, doubles as the capability
//! that authorizes writes to the derived slot without any private key.
use vstd::prelude::*;
use vstd::slice::slice_to_vec;
use crate::is_address;

verus! {

/// The fixed tag that scopes the extra-account-metas slot to the transfer
/// hook interface: the bytes of `extra-account-metas`.
pub open spec fn extra_account_metas_seed() -> Seq<u8> {
    seq![
        101u8, 120, 116, 114, 97, 45, 97, 99, 99, 111, 117, 110, 116, 45, 109, 101, 116, 97, 115,
    ]
}

/// The seed tuple of an authority's counter slot.
pub open spec fn counter_seeds(authority: Seq<u8>) -> Seq<Seq<u8>> {
    seq![authority]
}

/// The seed tuple of a mint's extra-account-metas slot.
pub open spec fn extra_account_metas_seeds(mint: Seq<u8>) -> Seq<Seq<u8>> {
    seq![extra_account_metas_seed(), mint]
}

/// What the derived-address computation yields for a seed tuple and a program
/// id: a 32-byte address, or nothing when the seeds are rejected (their hash
/// lies on the curve).
pub uninterp spec fn pda_address(seeds: Seq<Seq<u8>>, program_id: Seq<u8>) -> Option<Seq<u8>>;

/// Relies on `solana_program::pubkey::Pubkey::create_program_address`: off the
/// chain it is a pure function of the seeds and the program id (a SHA-256
/// digest over them plus a fixed marker), it fails beyond that only when the
/// digest lies on the ed25519 curve, and it does not panic.  The seed-count
/// and seed-length preconditions keep its other error cases out.
#[verifier::external_body]
pub(crate) fn create_program_address(seeds: &Vec<Vec<u8>>, program_id: &[u8]) -> (r: Option<
    Vec<u8>,
>)
    requires
        is_address(program_id@),
        seeds@.len() <= 16,
        forall|i: int| 0 <= i < seeds@.len() ==> (#[trigger] seeds@[i])@.len() <= 32,
    ensures
        match r {
            Some(a) => is_address(a@) && pda_address(seeds.deep_view(), program_id@) == Some(a@),
            None => pda_address(seeds.deep_view(), program_id@) is None,
        },
{
    let seed_refs: Vec<&[u8]> = seeds.iter().map(|s| s.as_slice()).collect();
    let mut pid = [0u8; 32];
    pid.copy_from_slice(program_id);
    let pid = solana_program::pubkey::Pubkey::new_from_array(pid);
    match solana_program::pubkey::Pubkey::create_program_address(&seed_refs, &pid) {
        Ok(a) => Some(a.to_bytes().to_vec()),
        Err(_) => None,
    }
}

/// Relies on `solana_program::pubkey::Pubkey::try_find_program_address`: it
/// tries the bump bytes 255 down to 1 and returns the first whose extended
/// seed tuple `create_program_address` accepts, so on success every greater
/// bump is one the derivation rejects, and on failure every bump from 1 to
/// 255 is; it does not panic.  The seed-count and seed-length preconditions
/// keep the search from stopping early on a length error.
#[verifier::external_body]
fn try_find_program_address(seeds: &Vec<Vec<u8>>, program_id: &[u8]) -> (r: Option<(Vec<u8>, u8)>)
    requires
        is_address(program_id@),
        seeds@.len() < 16,
        forall|i: int| 0 <= i < seeds@.len() ==> (#[trigger] seeds@[i])@.len() <= 32,
    ensures
        match r {
            Some(pair) => is_address(pair.0@) && pda_address(
                seeds.deep_view().push(seq![pair.1]),
                program_id@,
            ) == Some(pair.0@) && (forall|b: u8| b > pair.1 ==> (#[trigger] pda_address(
                seeds.deep_view().push(seq![b]),
                program_id@,
            )) is None),
            None => forall|b: u8| 1 <= b ==> (#[trigger] pda_address(
                seeds.deep_view().push(seq![b]),
                program_id@,
            )) is None,
        },
{
    let seed_refs: Vec<&[u8]> = seeds.iter().map(|s| s.as_slice()).collect();
    let mut pid = [0u8; 32];
    pid.copy_from_slice(program_id);
    let pid = solana_program::pubkey::Pubkey::new_from_array(pid);
    match solana_program::pubkey::Pubkey::try_find_program_address(&seed_refs, &pid) {
        Some((a, bump)) => Some((a.to_bytes().to_vec(), bump)),
        None => None,
    }
}

/// The bytes of the fixed extra-account-metas tag.
pub fn extra_account_metas_seed_bytes() -> (r: Vec<u8>)
    ensures
        r@ == extra_account_metas_seed(),
{
    let mut v: Vec<u8> = Vec::new();
    v.push(101);
    v.push(120);
    v.push(116);
    v.push(114);
    v.push(97);
    v.push(45);
    v.push(97);
    v.push(99);
    v.push(99);
    v.push(111);
    v.push(117);
    v.push(110);
    v.push(116);
    v.push(45);
    v.push(109);
    v.push(101);
    v.push(116);
    v.push(97);
    v.push(115);
    proof {
        assert(v@ =~= extra_account_metas_seed());
    }
    v
}

/// The full seed tuple, bump byte included, that authorizes writes to a
/// mint's extra-account-metas slot: the capability presented in place of a
/// private key.
pub fn collect_extra_account_metas_signer_seeds(mint: &[u8], bump_seed: u8) -> (r: Vec<Vec<u8>>)
    requires
        is_address(mint@),
    ensures
        r.deep_view() == extra_account_metas_seeds(mint@).push(seq![bump_seed]),
        r@.len() == 3,
        forall|i: int| 0 <= i < r@.len() ==> (#[trigger] r@[i])@.len() <= 32,
{
    let mut seeds: Vec<Vec<u8>> = Vec::new();
    seeds.push(extra_account_metas_seed_bytes());
    seeds.push(slice_to_vec(mint));
    let mut bump: Vec<u8> = Vec::new();
    bump.push(bump_seed);
    proof {
        assert(bump@ =~= seq![bump_seed]);
    }
    seeds.push(bump);
    proof {
        assert(seeds.deep_view() =~~= extra_account_metas_seeds(mint@).push(seq![bump_seed]));
    }
    seeds
}

/// Where an authority's counter slot lives: the address derived from the
/// authority's address alone, with its canonical bump — the greatest bump
/// byte the derivation accepts.  `None` comes only when the derivation
/// rejects every bump from 1 to 255.
pub fn counter_address(authority: &[u8], program_id: &[u8]) -> (r: Option<(Vec<u8>, u8)>)
    requires
        is_address(authority@),
        is_address(program_id@),
    ensures
        match r {
            Some(pair) => is_address(pair.0@) && pda_address(
                counter_seeds(authority@).push(seq![pair.1]),
                program_id@,
            ) == Some(pair.0@) && (forall|b: u8| b > pair.1 ==> (#[trigger] pda_address(
                counter_seeds(authority@).push(seq![b]),
                program_id@,
            )) is None),
            None => forall|b: u8| 1 <= b ==> (#[trigger] pda_address(
                counter_seeds(authority@).push(seq![b]),
                program_id@,
            )) is None,
        },
{
    let mut seeds: Vec<Vec<u8>> = Vec::new();
    seeds.push(slice_to_vec(authority));
    proof {
        assert(seeds.deep_view() =~~= counter_seeds(authority@));
    }
    let r = try_find_program_address(&seeds, program_id);
    proof {
        if r is Some {
            let bump = (r->0).1;
            assert forall|b: u8| b > bump implies (#[trigger] pda_address(
                counter_seeds(authority@).push(seq![b]),
                program_id@,
            )) is None by {
                assert(pda_address(seeds.deep_view().push(seq![b]), program_id@) is None);
            }
        } else {
            assert forall|b: u8| 1 <= b implies (#[trigger] pda_address(
                counter_seeds(authority@).push(seq![b]),
                program_id@,
            )) is None by {
                assert(pda_address(seeds.deep_view().push(seq![b]), program_id@) is None);
            }
        }
    }
    r
}

/// Where a mint's extra-account-metas slot lives: the address derived from
/// the fixed tag plus the mint's address, with its canonical bump — the
/// greatest bump byte the derivation accepts.  `None` comes only when the
/// derivation rejects every bump from 1 to 255.
pub fn extra_account_metas_address(mint: &[u8], program_id: &[u8]) -> (r: Option<(Vec<u8>, u8)>)
    requires
        is_address(mint@),
        is_address(program_id@),
    ensures
        match r {
            Some(pair) => is_address(pair.0@) && pda_address(
                extra_account_metas_seeds(mint@).push(seq![pair.1]),
                program_id@,
            ) == Some(pair.0@) && (forall|b: u8| b > pair.1 ==> (#[trigger] pda_address(
                extra_account_metas_seeds(mint@).push(seq![b]),
                program_id@,
            )) is None),
            None => forall|b: u8| 1 <= b ==> (#[trigger] pda_address(
                extra_account_metas_seeds(mint@).push(seq![b]),
                program_id@,
            )) is None,
        },
{
    let mut seeds: Vec<Vec<u8>> = Vec::new();
    seeds.push(extra_account_metas_seed_bytes());
    seeds.push(slice_to_vec(mint));
    proof {
        assert(seeds.deep_view() =~~= extra_account_metas_seeds(mint@));
    }
    let r = try_find_program_address(&seeds, program_id);
    proof {
        if r is Some {
            let bump = (r->0).1;
            assert forall|b: u8| b > bump implies (#[trigger] pda_address(
                extra_account_metas_seeds(mint@).push(seq![b]),
                program_id@,
            )) is None by {
                assert(pda_address(seeds.deep_view().push(seq![b]), program_id@) is None);
            }
        } else {
            assert forall|b: u8| 1 <= b implies (#[trigger] pda_address(
                extra_account_metas_seeds(mint@).push(seq![b]),
                program_id@,
            )) is None by {
                assert(pda_address(seeds.deep_view().push(seq![b]), program_id@) is None);
            }
        }
    }
    r
}

} // verus!
