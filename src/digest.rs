//! The digest function of the ledger: SHA-256.
use crate::target::DIGEST_LEN;
use sha2::{Digest, Sha256};
use vstd::prelude::*;

verus! {

/// The SHA-256 digest of a byte string.
pub uninterp spec fn sha256_of(data: Seq<u8>) -> Seq<u8>;

/// Relies on `sha2::Sha256::digest` (the `digest::Digest` trait): it returns
/// the SHA-256 digest of its input, which depends on the input alone, as a
/// 32-byte array (`Sha256`'s output size is `U32`).
#[verifier::external_body]
pub(crate) fn sha256(data: &[u8]) -> (r: Vec<u8>)
    ensures
        r@ == sha256_of(data@),
        r@.len() == DIGEST_LEN,
{
    Sha256::digest(data).to_vec()
}

} // verus!
