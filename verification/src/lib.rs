//! A hybrid post-quantum secure channel: a Kyber768 + X25519 handshake that
//! binds its session keys to a transcript hash, and a sequence-numbered
//! ChaCha20-Poly1305 record layer with strict replay rejection.

pub mod bytes;
pub mod crypto;
pub mod protocol;
