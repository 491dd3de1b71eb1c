//! Checking an ECDSA/secp256k1 signature over the digest of a message.

use vstd::prelude::*;
use k256::ecdsa::signature::Verifier;
use k256::ecdsa::{Signature, VerifyingKey};
use crate::digest::{sha256, sha256_of};

verus! {

/// Whether `pk` is a SEC1 encoding of a point of secp256k1 that can serve as a key.
pub uninterp spec fn sec1_key_valid(pk: Seq<u8>) -> bool;

/// Whether the 64 bytes `sig` hold two scalars `r || s` that form a signature.
pub uninterp spec fn signature_scalars_valid(sig: Seq<u8>) -> bool;

/// Whether the ECDSA/secp256k1 check accepts `sig` over `msg` for key `pk`.
pub uninterp spec fn ecdsa_accepts(pk: Seq<u8>, msg: Seq<u8>, sig: Seq<u8>) -> bool;

/// Relies on k256's `VerifyingKey::from_sec1_bytes`. Through sec1's
/// `EncodedPoint::from_bytes` it accepts only a tag byte followed by nothing, by
/// one coordinate or by two, that is 1, 33 or 65 bytes.
#[verifier::external_body]
fn sec1_key_parses(pk: &[u8]) -> (r: bool)
    ensures
        r == sec1_key_valid(pk@),
        r ==> pk@.len() == 1 || pk@.len() == 33 || pk@.len() == 65,
{
    VerifyingKey::from_sec1_bytes(pk).is_ok()
}

/// Relies on k256's `Signature::from_bytes`, which reads 64 bytes as `r || s`.
/// Converting a slice of another length to its fixed-size argument panics.
#[verifier::external_body]
fn signature_parses(sig: &[u8]) -> (r: bool)
    requires
        sig@.len() == 64,
    ensures
        r == signature_scalars_valid(sig@),
{
    Signature::from_bytes(sig.into()).is_ok()
}

/// Relies on k256's `Verifier::verify` for `VerifyingKey`, which applies the ECDSA
/// check (hashing `msg` with SHA-256 itself). Key and signature are first
/// converted from their encodings, which the `requires` says are well formed.
#[verifier::external_body]
fn ecdsa_verify(pk: &[u8], msg: &[u8], sig: &[u8]) -> (r: bool)
    requires
        sec1_key_valid(pk@),
        sig@.len() == 64,
        signature_scalars_valid(sig@),
    ensures
        r == ecdsa_accepts(pk@, msg@, sig@),
{
    match (VerifyingKey::from_sec1_bytes(pk), Signature::from_bytes(sig.into())) {
        (Ok(key), Ok(signature)) => key.verify(msg, &signature).is_ok(),
        _ => false,
    }
}

/// The outcome of a signature check, with the first gate that failed.
#[derive(Clone, Copy, Debug, PartialEq, Eq, Structural)]
pub enum SignatureCheck {
    MalformedKey,
    MalformedSignature,
    VerificationMismatch,
    Valid,
}

/// The outcome of checking `sig` over `msg` against `pk`: the key must decode,
/// then the signature must be 64 bytes of valid scalars, then the check must
/// accept it over the SHA-256 digest of `msg`.
pub open spec fn signature_check(msg: Seq<u8>, sig: Seq<u8>, pk: Seq<u8>) -> SignatureCheck {
    if !sec1_key_valid(pk) {
        SignatureCheck::MalformedKey
    } else if sig.len() != 64 || !signature_scalars_valid(sig) {
        SignatureCheck::MalformedSignature
    } else if !ecdsa_accepts(pk, sha256_of(msg), sig) {
        SignatureCheck::VerificationMismatch
    } else {
        SignatureCheck::Valid
    }
}

/// Checks `sig_bytes` over the digest of `msg` against `pk_bytes` and says which
/// gate, if any, failed.
pub fn check_signature(msg: &[u8], sig_bytes: &[u8], pk_bytes: &[u8]) -> (r: SignatureCheck)
    ensures
        r == signature_check(msg@, sig_bytes@, pk_bytes@),
        r != SignatureCheck::MalformedKey ==> pk_bytes@.len() == 1 || pk_bytes@.len() == 33
            || pk_bytes@.len() == 65,
{
    let msg_hash = sha256(msg);
    if !sec1_key_parses(pk_bytes) {
        return SignatureCheck::MalformedKey;
    }
    if sig_bytes.len() != 64 || !signature_parses(sig_bytes) {
        return SignatureCheck::MalformedSignature;
    }
    if !ecdsa_verify(pk_bytes, msg_hash.as_slice(), sig_bytes) {
        return SignatureCheck::VerificationMismatch;
    }
    SignatureCheck::Valid
}

/// Whether `sig_bytes` is a valid signature over the digest of `msg` for
/// `pk_bytes`. Never fails otherwise than by returning `false`: on an empty key,
/// an empty signature, or a key or signature of a length that no encoding has.
pub fn verify_signature(msg: &[u8], sig_bytes: &[u8], pk_bytes: &[u8]) -> (ok: bool)
    ensures
        ok == (signature_check(msg@, sig_bytes@, pk_bytes@) == SignatureCheck::Valid),
        ok == (sec1_key_valid(pk_bytes@) && sig_bytes@.len() == 64
            && signature_scalars_valid(sig_bytes@)
            && ecdsa_accepts(pk_bytes@, sha256_of(msg@), sig_bytes@)),
        pk_bytes@.len() != 1 && pk_bytes@.len() != 33 && pk_bytes@.len() != 65 ==> !ok,
        sig_bytes@.len() != 64 ==> !ok,
{
    let outcome = check_signature(msg, sig_bytes, pk_bytes);
    outcome == SignatureCheck::Valid
}

} // verus!
