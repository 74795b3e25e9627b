use std::str::FromStr;

use anchor_lang::prelude::Pubkey;
use breachx::address::Address;
use breachx::derive::{
    derive_badge_mint_address, derive_report_address, found_address, seeds_for, BADGE_MINT_TAG,
    MAX_SEED_LEN, REPORT_TAG,
};
use breachx::digest::StringExt;
use breachx::program::program_id;
use breachx::report::format_tag_bytes;

fn who(byte: u8) -> Address {
    Address::new([byte; 32])
}

fn derive(tag: &[u8], owner: &Address, repository_id: &str, program: &Address) -> Option<Address> {
    breachx::derive::derive(tag, owner, repository_id, program)
}

#[test]
fn digest_of_a_known_text() {
    let digest = String::from("repo1").to_hashed_bytes();
    assert_eq!(
        digest,
        [
            142, 146, 0, 141, 98, 36, 61, 24, 78, 226, 110, 219, 11, 90, 112, 113, 19, 239, 55,
            156, 74, 242, 200, 91, 130, 168, 232, 146, 218, 70, 182, 99
        ]
    );
}

#[test]
fn digest_of_the_empty_text() {
    let digest = String::new().to_hashed_bytes();
    assert_eq!(
        digest,
        [
            227, 176, 196, 66, 152, 252, 28, 20, 154, 251, 244, 200, 153, 111, 185, 36, 39, 174,
            65, 228, 100, 155, 147, 76, 164, 149, 153, 27, 120, 82, 184, 85
        ]
    );
}

#[test]
fn digest_has_a_fixed_size_whatever_the_length() {
    let long = "x".repeat(5000);
    let digest = long.to_hashed_bytes();
    assert_eq!(digest.len(), 32);
    assert_ne!(digest, String::from("x").to_hashed_bytes());
}

#[test]
fn format_tag_is_the_digest_of_the_record_name() {
    let digest = String::from("account:VulnerabilityReport").to_hashed_bytes();
    assert_eq!(format_tag_bytes(), digest[..8]);
}

#[test]
fn program_identity_is_the_declared_one() {
    let declared = Pubkey::from_str("gK7LKdzB7mKMHGg7Tio7Yatjhrb6V3yAGkYTqbTSoKz").unwrap();
    assert_eq!(program_id().to_bytes(), declared.to_bytes());
}

#[test]
fn seeds_are_tag_owner_digest() {
    let digest = String::from("repo1").to_hashed_bytes();
    let seeds = seeds_for(b"vulnerability_report", &who(3), &digest);
    assert_eq!(seeds.len(), 3);
    assert_eq!(seeds[0], b"vulnerability_report".to_vec());
    assert_eq!(seeds[1], vec![3u8; 32]);
    assert_eq!(seeds[2], digest.to_vec());
}

#[test]
fn found_address_drops_the_bump() {
    assert_eq!(found_address(Some((who(4), 254))), Some(who(4)));
    assert_eq!(found_address(None), None);
}

#[test]
fn derive_gives_the_same_address_twice() {
    let first = derive(b"vulnerability_report", &who(1), "repo1", &program_id());
    let second = derive(b"vulnerability_report", &who(1), "repo1", &program_id());
    assert!(first.is_some());
    assert_eq!(first, second);
}

#[test]
fn derive_agrees_with_the_runtime_library() {
    let owner = who(1);
    let digest = String::from("repo1").to_hashed_bytes();
    let program = Pubkey::new_from_array(program_id().to_bytes());
    let (expected, _) = Pubkey::find_program_address(
        &[b"vulnerability_report", &owner.to_bytes(), &digest],
        &program,
    );
    let derived = derive(b"vulnerability_report", &owner, "repo1", &program_id()).unwrap();
    assert_eq!(derived.to_bytes(), expected.to_bytes());
    assert_ne!(derived, owner);
    assert_ne!(derived, program_id());
}

#[test]
fn derive_tells_owners_apart() {
    let a = derive(b"vulnerability_report", &who(1), "repo1", &program_id()).unwrap();
    let b = derive(b"vulnerability_report", &who(2), "repo1", &program_id()).unwrap();
    assert_ne!(a, b);
}

#[test]
fn derive_tells_identifiers_apart() {
    let a = derive(b"vulnerability_report", &who(1), "repo1", &program_id()).unwrap();
    let b = derive(b"vulnerability_report", &who(1), "repo2", &program_id()).unwrap();
    assert_ne!(a, b);
}

#[test]
fn derive_does_not_fold_case() {
    let lower = derive(b"vulnerability_report", &who(1), "repo1", &program_id()).unwrap();
    let upper = derive(b"vulnerability_report", &who(1), "Repo1", &program_id()).unwrap();
    assert_ne!(lower, upper);
}

#[test]
fn derive_does_not_normalise_encodings() {
    let composed = derive(b"vulnerability_report", &who(1), "caf\u{e9}", &program_id()).unwrap();
    let decomposed =
        derive(b"vulnerability_report", &who(1), "cafe\u{301}", &program_id()).unwrap();
    assert_ne!(composed, decomposed);
}

#[test]
fn derive_tells_tags_and_programs_apart() {
    let report = derive(b"vulnerability_report", &who(1), "repo1", &program_id()).unwrap();
    let badge = derive(b"vulnerability_badge", &who(1), "repo1", &program_id()).unwrap();
    let elsewhere = derive(b"vulnerability_report", &who(1), "repo1", &who(9)).unwrap();
    assert_ne!(report, badge);
    assert_ne!(report, elsewhere);
}

#[test]
fn derive_takes_identifiers_longer_than_a_seed() {
    let long = "r".repeat(MAX_SEED_LEN + 1);
    let longer = "r".repeat(1000);
    let a = derive(b"vulnerability_report", &who(1), &long, &program_id());
    let b = derive(b"vulnerability_report", &who(1), &longer, &program_id());
    assert!(a.is_some());
    assert!(b.is_some());
    assert_ne!(a, b);
}

#[test]
fn derive_refuses_a_tag_longer_than_a_seed() {
    let tag = [7u8; 33];
    assert_eq!(derive(&tag, &who(1), "repo1", &program_id()), None);
    let tag = [7u8; 32];
    assert!(derive(&tag, &who(1), "repo1", &program_id()).is_some());
}

#[test]
fn named_derivations_use_their_tags() {
    assert_eq!(REPORT_TAG, "vulnerability_report");
    assert_eq!(BADGE_MINT_TAG, "vulnerability_badge");
    assert_eq!(
        derive_report_address(&program_id(), &who(1), "repo1"),
        derive(REPORT_TAG.as_bytes(), &who(1), "repo1", &program_id())
    );
    assert_eq!(
        derive_badge_mint_address(&program_id(), &who(1), "repo1"),
        derive(BADGE_MINT_TAG.as_bytes(), &who(1), "repo1", &program_id())
    );
}
