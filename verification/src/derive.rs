//! Derived addresses: where the record of a reporter and a repository
//! lives, and where the mint of its badge does.
//!
//! An address is derived from a namespace tag, the owner's identity and the
//! digest of the repository identifier. The identifier itself never enters
//! the derivation, so its length is not capped by the size of a seed.

use vstd::prelude::*;
use vstd::utf8::encode_utf8;
use crate::address::Address;
use crate::digest::{sha256, sha256_digest};

verus! {

/// The namespace of report records.
pub const REPORT_TAG: &'static str = "vulnerability_report";

/// The namespace of badge mints.
pub const BADGE_MINT_TAG: &'static str = "vulnerability_badge";

/// The most bytes that one seed of a derivation may have.
pub const MAX_SEED_LEN: usize = 32;

/// The address that the runtime library derives for a program from a list
/// of seeds, with the bump that made it valid; `None` where it finds none.
pub uninterp spec fn program_address(seeds: Seq<Seq<u8>>, program_id: Seq<u8>) -> Option<
    (Seq<u8>, u8),
>;

/// The seeds as byte strings.
pub open spec fn seeds_view(seeds: Seq<Vec<u8>>) -> Seq<Seq<u8>> {
    Seq::new(seeds.len(), |i: int| seeds[i]@)
}

/// A found address and its bump as plain values.
pub open spec fn found_view(found: Option<(Address, u8)>) -> Option<(Seq<u8>, u8)> {
    match found {
        Some((address, bump)) => Some((address@, bump)),
        None => None,
    }
}

/// Calls `Pubkey::try_find_program_address` of `anchor_lang`'s prelude.
/// Trusted: the result is a function of the seeds and the program's
/// identity alone, and there is none when a seed has more than
/// `MAX_SEED_LEN` bytes. Nothing is claimed of when an address is found.
#[verifier::external_body]
pub(crate) fn find_program_address(seeds: &Vec<Vec<u8>>, program_id: &Address) -> (found: Option<
    (Address, u8),
>)
    ensures
        found_view(found) == program_address(seeds_view(seeds@), program_id@),
        (exists|i: int| 0 <= i < seeds.len() && seeds[i].len() > MAX_SEED_LEN) ==> found is None,
{
    let parts: Vec<&[u8]> = seeds.iter().map(|seed| seed.as_slice()).collect();
    let id = anchor_lang::prelude::Pubkey::new_from_array(program_id.bytes);
    match anchor_lang::prelude::Pubkey::try_find_program_address(&parts, &id) {
        Some((key, bump)) => Some((Address { bytes: key.to_bytes() }, bump)),
        None => None,
    }
}

/// The seeds of a derivation: the tag, the owner, the digest, in this order.
pub open spec fn seeds_of(tag: Seq<u8>, owner: Seq<u8>, digest: Seq<u8>) -> Seq<Seq<u8>> {
    seq![tag, owner, digest]
}

/// Builds the seeds of a derivation.
pub fn seeds_for(tag: &[u8], owner: &Address, digest: &[u8; 32]) -> (seeds: Vec<Vec<u8>>)
    ensures
        seeds_view(seeds@) == seeds_of(tag@, owner@, digest@),
{
    let mut seeds: Vec<Vec<u8>> = Vec::new();
    seeds.push(vstd::slice::slice_to_vec(tag));
    seeds.push(vstd::slice::slice_to_vec(owner.bytes.as_slice()));
    seeds.push(vstd::slice::slice_to_vec(digest.as_slice()));
    assert(seeds_view(seeds@) =~= seeds_of(tag@, owner@, digest@));
    seeds
}

/// The address derived for `owner` and `repository_id` in the namespace
/// `tag`, under the program `program_id`.
pub open spec fn derived_address(
    tag: Seq<u8>,
    owner: Seq<u8>,
    repository_id: Seq<char>,
    program_id: Seq<u8>,
) -> Option<Seq<u8>> {
    match program_address(
        seeds_of(tag, owner, sha256_digest(encode_utf8(repository_id))),
        program_id,
    ) {
        Some((address, _)) => Some(address),
        None => None,
    }
}

/// An address that may be missing, as plain bytes.
pub open spec fn address_view(address: Option<Address>) -> Option<Seq<u8>> {
    match address {
        Some(a) => Some(a@),
        None => None,
    }
}

/// What a search for a program address leaves of a derivation: the
/// address, without its bump.
pub fn found_address(found: Option<(Address, u8)>) -> (address: Option<Address>)
    ensures
        address == match found {
            Some((a, _)) => Some(a),
            None => None,
        },
{
    match found {
        Some((address, _)) => Some(address),
        None => None,
    }
}

/// Derives the address of `owner` and `repository_id` in the namespace
/// `tag`. The same inputs give the same address. The identifier is taken
/// as it is written: no case is folded and no encoding normalised.
pub fn derive(tag: &[u8], owner: &Address, repository_id: &str, program_id: &Address) -> (address:
    Option<Address>)
    ensures
        address_view(address) == derived_address(tag@, owner@, repository_id@, program_id@),
        tag@.len() > MAX_SEED_LEN ==> address is None,
{
    let digest = sha256(repository_id.as_bytes());
    let seeds = seeds_for(tag, owner, &digest);
    let found = find_program_address(&seeds, program_id);
    proof {
        if tag@.len() > MAX_SEED_LEN {
            assert(seeds_view(seeds@).len() == 3);
            assert(seeds_view(seeds@)[0] == seeds@[0]@);
            assert(seeds[0].len() > MAX_SEED_LEN);
        }
    }
    found_address(found)
}

/// Where the report of `owner` on `repository_id` is kept.
pub open spec fn report_address(
    program_id: Seq<u8>,
    owner: Seq<u8>,
    repository_id: Seq<char>,
) -> Option<Seq<u8>> {
    derived_address(encode_utf8(REPORT_TAG@), owner, repository_id, program_id)
}

/// Where the mint of the badge for the report of `owner` on
/// `repository_id` is kept.
pub open spec fn badge_mint_address(
    program_id: Seq<u8>,
    owner: Seq<u8>,
    repository_id: Seq<char>,
) -> Option<Seq<u8>> {
    derived_address(encode_utf8(BADGE_MINT_TAG@), owner, repository_id, program_id)
}

/// Derives the address of the report of `owner` on `repository_id`.
pub fn derive_report_address(program_id: &Address, owner: &Address, repository_id: &str) -> (address:
    Option<Address>)
    ensures
        address_view(address) == report_address(program_id@, owner@, repository_id@),
{
    derive(REPORT_TAG.as_bytes(), owner, repository_id, program_id)
}

/// Derives the address of the mint of the badge for the report of `owner`
/// on `repository_id`.
pub fn derive_badge_mint_address(
    program_id: &Address,
    owner: &Address,
    repository_id: &str,
) -> (address: Option<Address>)
    ensures
        address_view(address) == badge_mint_address(program_id@, owner@, repository_id@),
{
    derive(BADGE_MINT_TAG.as_bytes(), owner, repository_id, program_id)
}

} // verus!
