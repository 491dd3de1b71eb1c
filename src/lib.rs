//! Verification that the holder of a secp256k1 key endorsed a payload and a list
//! of destination addresses, and derivation of the key's legacy pay-to-pubkey-hash
//! address.

pub mod message;
pub mod digest;
pub mod base58;
pub mod address;
pub mod signature;
pub mod request;
