//! One endorsement request: check the signature, then derive the address.

use vstd::prelude::*;
use crate::address::{compute_p2pkh, p2pkh_address};
use crate::message::{build_sig_msg, canonical_message};
use crate::signature::{signature_check, verify_signature, SignatureCheck};

verus! {

/// What one request supplies: the key, the payload, the destination addresses in
/// their signed order, the version byte of the derived address, and the signature.
#[derive(Clone, Debug, PartialEq, Eq)]
pub struct GuessInputs {
    pub pk_bytes: Vec<u8>,
    pub arbitrary_bytes: Vec<u8>,
    pub pq_addresses: Vec<String>,
    pub bitcoin_version_byte: u8,
    pub sig_bytes: Vec<u8>,
}

/// Whether the signature of `inputs` endorses its payload and addresses under its key.
pub open spec fn endorsed(inputs: GuessInputs) -> bool {
    signature_check(
        canonical_message(inputs.arbitrary_bytes@, inputs.pq_addresses@),
        inputs.sig_bytes@,
        inputs.pk_bytes@,
    ) == SignatureCheck::Valid
}

/// The address of the signing key if the signature endorses the payload and the
/// addresses, and `None` (the whole request is refused) if it does not.
pub fn attest_inputs(inputs: &GuessInputs) -> (r: Option<String>)
    ensures
        r is Some <==> endorsed(*inputs),
        r matches Some(a) ==> a@ == p2pkh_address(inputs.bitcoin_version_byte, inputs.pk_bytes@),
{
    let msg = build_sig_msg(inputs.arbitrary_bytes.as_slice(), inputs.pq_addresses.as_slice());
    if !verify_signature(msg.as_slice(), inputs.sig_bytes.as_slice(), inputs.pk_bytes.as_slice()) {
        return None;
    }
    Some(compute_p2pkh(inputs.bitcoin_version_byte, inputs.pk_bytes.as_slice()))
}

} // verus!
