//! The two hash functions of the scheme, each behind a wrapper over its crate.

use vstd::prelude::*;
use ripemd::Ripemd160;
use sha2::{Digest, Sha256};

verus! {

/// The SHA-256 digest of a byte string.
pub uninterp spec fn sha256_of(b: Seq<u8>) -> Seq<u8>;

/// The RIPEMD-160 digest of a byte string.
pub uninterp spec fn ripemd160_of(b: Seq<u8>) -> Seq<u8>;

/// Relies on sha2's `Sha256::digest`: a 32-byte digest that depends on the input alone.
#[verifier::external_body]
pub(crate) fn sha256(bytes: &[u8]) -> (r: Vec<u8>)
    ensures
        r@ == sha256_of(bytes@),
        r@.len() == 32,
{
    Sha256::digest(bytes).to_vec()
}

/// Relies on ripemd's `Ripemd160::digest`: a 20-byte digest that depends on the input alone.
#[verifier::external_body]
pub(crate) fn ripemd160(bytes: &[u8]) -> (r: Vec<u8>)
    ensures
        r@ == ripemd160_of(bytes@),
        r@.len() == 20,
{
    Ripemd160::digest(bytes).to_vec()
}

} // verus!
