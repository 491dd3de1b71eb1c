use k256::ecdsa::signature::Signer;
use k256::ecdsa::{Signature, SigningKey};
use p2pkh_lib::address::compute_p2pkh;
use p2pkh_lib::message::build_sig_msg;
use p2pkh_lib::request::{attest_inputs, GuessInputs};
use p2pkh_lib::signature::{check_signature, verify_signature, SignatureCheck};
use sha2::{Digest, Sha256};

fn from_hex(s: &str) -> Vec<u8> {
    (0..s.len())
        .step_by(2)
        .map(|i| u8::from_str_radix(&s[i..i + 2], 16).unwrap())
        .collect()
}

fn signing_key(seed: u8) -> SigningKey {
    let mut secret = [0u8; 32];
    secret[31] = seed;
    secret[0] = 0x11;
    SigningKey::from_slice(&secret).unwrap()
}

fn public_key(sk: &SigningKey, compressed: bool) -> Vec<u8> {
    sk.verifying_key().to_encoded_point(compressed).as_bytes().to_vec()
}

/// Signs the SHA-256 digest of `msg`, as the verifier expects.
fn sign(sk: &SigningKey, msg: &[u8]) -> Vec<u8> {
    let digest = Sha256::digest(msg);
    let sig: Signature = sk.sign(&digest);
    sig.to_bytes().to_vec()
}

fn strings(items: &[&str]) -> Vec<String> {
    items.iter().map(|s| s.to_string()).collect()
}

#[test]
fn message_is_payload_then_addresses() {
    let msg = build_sig_msg(b"hello", &strings(&["addrA", "addrB"]));
    assert_eq!(msg, b"helloaddrAaddrB".to_vec());
}

#[test]
fn message_without_addresses_is_payload() {
    assert_eq!(build_sig_msg(b"payload", &[]), b"payload".to_vec());
}

#[test]
fn message_without_payload_is_addresses() {
    let msg = build_sig_msg(b"", &strings(&["one", "two", "three"]));
    assert_eq!(msg, b"onetwothree".to_vec());
}

#[test]
fn message_of_nothing_is_empty() {
    assert!(build_sig_msg(b"", &[]).is_empty());
}

#[test]
fn message_keeps_utf8_and_order() {
    let msg = build_sig_msg(&[0xff, 0x00], &strings(&["é", "b", "a"]));
    assert_eq!(msg, vec![0xff, 0x00, 0xc3, 0xa9, b'b', b'a']);
}

#[test]
fn signature_over_digest_verifies() {
    for (seed, msg) in [(1u8, &b"hello"[..]), (2, b""), (3, b"a longer message of some bytes")] {
        let sk = signing_key(seed);
        let sig = sign(&sk, msg);
        assert!(verify_signature(msg, &sig, &public_key(&sk, true)));
        assert!(verify_signature(msg, &sig, &public_key(&sk, false)));
        assert_eq!(check_signature(msg, &sig, &public_key(&sk, true)), SignatureCheck::Valid);
    }
}

#[test]
fn flipping_any_signature_byte_fails() {
    let sk = signing_key(7);
    let pk = public_key(&sk, true);
    let sig = sign(&sk, b"endorsement");
    for i in 0..sig.len() {
        let mut bad = sig.clone();
        bad[i] ^= 0x01;
        assert!(!verify_signature(b"endorsement", &bad, &pk), "byte {i}");
    }
}

#[test]
fn empty_key_is_rejected() {
    let sk = signing_key(1);
    let sig = sign(&sk, b"m");
    assert!(!verify_signature(b"m", &sig, &[]));
    assert_eq!(check_signature(b"m", &sig, &[]), SignatureCheck::MalformedKey);
}

#[test]
fn empty_signature_is_rejected() {
    let sk = signing_key(1);
    let pk = public_key(&sk, true);
    assert!(!verify_signature(b"m", &[], &pk));
    assert_eq!(check_signature(b"m", &[], &pk), SignatureCheck::MalformedSignature);
}

#[test]
fn key_of_wrong_length_is_rejected() {
    let sk = signing_key(1);
    let sig = sign(&sk, b"m");
    let pk = public_key(&sk, true);
    assert!(!verify_signature(b"m", &sig, &pk[..32]));
    let mut long = pk.clone();
    long.push(0);
    assert!(!verify_signature(b"m", &sig, &long));
}

#[test]
fn signature_of_wrong_length_is_rejected() {
    let sk = signing_key(1);
    let pk = public_key(&sk, true);
    let sig = sign(&sk, b"m");
    assert!(!verify_signature(b"m", &sig[..63], &pk));
    let mut long = sig.clone();
    long.push(0);
    assert!(!verify_signature(b"m", &long, &pk));
}

#[test]
fn zero_scalars_are_malformed() {
    let pk = public_key(&signing_key(1), true);
    assert_eq!(check_signature(b"m", &[0u8; 64], &pk), SignatureCheck::MalformedSignature);
}

#[test]
fn signature_for_other_key_mismatches() {
    let sig = sign(&signing_key(1), b"m");
    let other = public_key(&signing_key(2), true);
    assert_eq!(check_signature(b"m", &sig, &other), SignatureCheck::VerificationMismatch);
    assert!(!verify_signature(b"m", &sig, &other));
}

#[test]
fn key_not_on_curve_is_malformed() {
    let mut pk = vec![0x04];
    pk.extend_from_slice(&[0x01; 64]);
    let sig = sign(&signing_key(1), b"m");
    assert_eq!(check_signature(b"m", &sig, &pk), SignatureCheck::MalformedKey);
}

#[test]
fn address_is_deterministic() {
    let pk = public_key(&signing_key(4), true);
    assert_eq!(compute_p2pkh(0x00, &pk), compute_p2pkh(0x00, &pk));
    assert_eq!(compute_p2pkh(0x6f, &pk), compute_p2pkh(0x6f, &pk));
}

#[test]
fn address_matches_known_vector() {
    let pk = from_hex("0250863ad64a87ae8a2fe83c1af1a8403cb53f53e486d8511dad8a04887e5b2352");
    assert_eq!(compute_p2pkh(0x00, &pk), "1PMycacnJaSqwwJqjawXBErnLsZ7RkXUAs");
}

#[test]
fn version_byte_changes_leading_character() {
    let pk = from_hex("0250863ad64a87ae8a2fe83c1af1a8403cb53f53e486d8511dad8a04887e5b2352");
    let main = compute_p2pkh(0x00, &pk);
    let script = compute_p2pkh(0x05, &pk);
    assert!(main.starts_with('1'));
    assert!(script.starts_with('3'));
    assert_ne!(main, script);
}

#[test]
fn decoded_address_carries_its_checksum() {
    let pk = public_key(&signing_key(9), false);
    for version in [0x00u8, 0x05, 0x6f, 0xff] {
        let address = compute_p2pkh(version, &pk);
        let payload = bs58::decode(&address).into_vec().unwrap();
        assert_eq!(payload.len(), 25);
        assert_eq!(payload[0], version);
        let check = Sha256::digest(Sha256::digest(&payload[..21]));
        assert_eq!(&payload[21..], &check[..4]);
    }
}

#[test]
fn leading_zero_version_gives_leading_one() {
    let pk = public_key(&signing_key(5), true);
    let address = compute_p2pkh(0x00, &pk);
    assert!(address.starts_with('1'));
    assert!(!compute_p2pkh(0x01, &pk).starts_with('1'));
}

fn scenario_inputs(sk: &SigningKey, addresses: &[&str]) -> GuessInputs {
    let pk = public_key(sk, true);
    let signed = build_sig_msg(b"hello", &strings(&["addrA", "addrB"]));
    GuessInputs {
        pk_bytes: pk,
        arbitrary_bytes: b"hello".to_vec(),
        pq_addresses: strings(addresses),
        bitcoin_version_byte: 0x00,
        sig_bytes: sign(sk, &signed),
    }
}

#[test]
fn end_to_end_endorsement() {
    let sk = signing_key(42);
    let inputs = scenario_inputs(&sk, &["addrA", "addrB"]);
    let msg = build_sig_msg(&inputs.arbitrary_bytes, &inputs.pq_addresses);
    assert!(verify_signature(&msg, &inputs.sig_bytes, &inputs.pk_bytes));
    let address = attest_inputs(&inputs).unwrap();
    assert_eq!(address, compute_p2pkh(0x00, &inputs.pk_bytes));
}

#[test]
fn end_to_end_altered_address_is_refused() {
    let sk = signing_key(42);
    let inputs = scenario_inputs(&sk, &["addrA", "addrC"]);
    let msg = build_sig_msg(&inputs.arbitrary_bytes, &inputs.pq_addresses);
    assert!(!verify_signature(&msg, &inputs.sig_bytes, &inputs.pk_bytes));
    assert_eq!(attest_inputs(&inputs), None);
}

#[test]
fn reordered_addresses_are_refused() {
    let sk = signing_key(42);
    let inputs = scenario_inputs(&sk, &["addrB", "addrA"]);
    assert_eq!(attest_inputs(&inputs), None);
}
