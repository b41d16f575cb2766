//! Search for an ed25519 keypair whose Base58-encoded public key matches a
//! chosen prefix or suffix pattern, by drawing candidate scalars from a
//! seeded deterministic stream and testing each derived address.

pub mod base58;
pub mod keys;
pub mod source;
pub mod worker;
