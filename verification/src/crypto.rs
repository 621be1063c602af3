//! The primitives the protocol is built from: the key-encapsulation and
//! Diffie-Hellman interfaces with their algorithms, the authenticated
//! cipher and the session key derivation.

pub mod aead;
pub mod hkdf;
pub mod kyber;
pub mod traits;
pub mod x25519;
