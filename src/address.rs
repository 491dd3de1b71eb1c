//! Derivation of a legacy pay-to-pubkey-hash address from a public key.

use vstd::prelude::*;
use crate::base58::{base58_text, base58_text_injective};
use crate::digest::{ripemd160, ripemd160_of, sha256, sha256_of};

verus! {

/// The two-stage digest of a public key: RIPEMD-160 over SHA-256.
pub open spec fn pubkey_hash(pk: Seq<u8>) -> Seq<u8> {
    ripemd160_of(sha256_of(pk))
}

/// The error-detection code of `v`: the first four bytes of SHA-256 applied twice.
pub open spec fn checksum(v: Seq<u8>) -> Seq<u8> {
    sha256_of(sha256_of(v)).subrange(0, 4)
}

/// The version byte followed by the key's two-stage digest.
pub open spec fn versioned_hash(version: u8, pk: Seq<u8>) -> Seq<u8> {
    seq![version] + pubkey_hash(pk)
}

/// The bytes that the address writes: the versioned digest and its checksum.
pub open spec fn address_payload(version: u8, pk: Seq<u8>) -> Seq<u8> {
    versioned_hash(version, pk) + checksum(versioned_hash(version, pk))
}

/// The address of key `pk` under `version`.
pub open spec fn p2pkh_address(version: u8, pk: Seq<u8>) -> Seq<char> {
    base58_text(address_payload(version, pk))
}

/// The address is a function of the version byte and the key bytes alone: equal
/// inputs give equal addresses, on every call.
pub proof fn p2pkh_address_deterministic(version: u8, pk1: Seq<u8>, pk2: Seq<u8>)
    requires
        pk1 == pk2,
    ensures
        p2pkh_address(version, pk1) == p2pkh_address(version, pk2),
{
}

/// Every address carries a checksum that checks: the only byte string whose
/// base-58 text is the address starts with the version byte, and is the version
/// byte and key digest followed by the checksum computed afresh over them.
pub proof fn address_checksum_matches(version: u8, pk: Seq<u8>, payload: Seq<u8>)
    requires
        base58_text(payload) == p2pkh_address(version, pk),
    ensures
        payload == versioned_hash(version, pk) + checksum(versioned_hash(version, pk)),
        payload[0] == version,
{
    base58_text_injective(payload, address_payload(version, pk));
}

/// Holding the key fixed, two different version bytes give two different addresses.
pub proof fn version_byte_changes_address(v1: u8, v2: u8, pk: Seq<u8>)
    requires
        v1 != v2,
    ensures
        p2pkh_address(v1, pk) != p2pkh_address(v2, pk),
{
    if p2pkh_address(v1, pk) == p2pkh_address(v2, pk) {
        base58_text_injective(address_payload(v1, pk), address_payload(v2, pk));
        assert(address_payload(v1, pk)[0] == v1);
        assert(address_payload(v2, pk)[0] == v2);
    }
}

/// Relies on bs58's `encode(..).into_string()` with its default (Bitcoin) alphabet.
#[verifier::external_body]
fn base58_encode(bytes: &[u8]) -> (r: String)
    ensures
        r@ == base58_text(bytes@),
{
    bs58::encode(bytes).into_string()
}

/// Derives the address of `pk_bytes` under `version_byte`. The key bytes are
/// hashed as they are: whether they encode a curve point is not checked here.
pub fn compute_p2pkh(version_byte: u8, pk_bytes: &[u8]) -> (address: String)
    ensures
        address@ == p2pkh_address(version_byte, pk_bytes@),
{
    let sha256_hash = sha256(pk_bytes);
    let ripemd160_hash = ripemd160(sha256_hash.as_slice());

    let mut address: Vec<u8> = vec![version_byte];
    address.extend_from_slice(ripemd160_hash.as_slice());
    assert(address@ =~= versioned_hash(version_byte, pk_bytes@));

    let inner = sha256(address.as_slice());
    let outer = sha256(inner.as_slice());
    let ghost versioned = address@;
    let mut i: usize = 0;
    while i < 4
        invariant
            i <= 4,
            outer@.len() == 32,
            outer@ == sha256_of(sha256_of(versioned)),
            address@ == versioned + outer@.subrange(0, i as int),
        decreases 4 - i,
    {
        address.push(outer[i]);
        assert(outer@.subrange(0, i + 1) =~= outer@.subrange(0, i as int).push(outer@[i as int]));
        i = i + 1;
    }
    assert(address@ =~= address_payload(version_byte, pk_bytes@));
    base58_encode(address.as_slice())
}

} // verus!
