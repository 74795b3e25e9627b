//! The fixed-size digest that stands for a repository identifier.

use vstd::prelude::*;
use vstd::utf8::encode_utf8;

verus! {

/// The SHA-256 digest of a byte string, as the hashing routine of the
/// runtime library computes it.
pub uninterp spec fn sha256_digest(data: Seq<u8>) -> Seq<u8>;

/// Calls `anchor_lang::solana_program::hash::hash` and takes the bytes of
/// the `Hash` it returns. Trusted: the result is the SHA-256 digest of
/// `data`, a function of `data` alone; thirty-two bytes by its type.
#[verifier::external_body]
pub(crate) fn sha256(data: &[u8]) -> (digest: [u8; 32])
    ensures
        digest@ == sha256_digest(data@),
{
    anchor_lang::solana_program::hash::hash(data).to_bytes()
}

/// Text that can be reduced to a digest of fixed size.
pub trait StringExt {
    /// The characters of the text.
    spec fn text(&self) -> Seq<char>;

    /// The SHA-256 digest of the text's UTF-8 bytes.
    fn to_hashed_bytes(&self) -> (digest: [u8; 32])
        ensures
            digest@ == sha256_digest(encode_utf8(self.text())),
    ;
}

impl StringExt for String {
    open spec fn text(&self) -> Seq<char> {
        self@
    }

    fn to_hashed_bytes(&self) -> (digest: [u8; 32]) {
        sha256(self.as_str().as_bytes())
    }
}

} // verus!
