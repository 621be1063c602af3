//! X25519, the classical half of the handshake: the raw Diffie-Hellman
//! exchange, and the same exchange shaped as a key-encapsulation mechanism.

use rand::rngs::OsRng;
use vstd::prelude::*;
use x25519_dalek::{PublicKey, StaticSecret};

use crate::crypto::hkdf::{hkdf_sha256_expand, hkdf_sha256_expanded};
use crate::crypto::traits::{Dh, Kem};

verus! {

/// Domain-separation label of the key-encapsulation form, `x25519-kem` in
/// ASCII.
pub const X25519_KEM_INFO: [u8; 10] = [0x78, 0x32, 0x35, 0x35, 0x31, 0x39, 0x2d, 0x6b, 0x65, 0x6d];

/// Length of the secret that the key-encapsulation form shares.
pub const X25519_KEM_SECRET_SIZE: usize = 32;

/// X25519 as a raw Diffie-Hellman exchange.
pub struct X25519Dh;

/// X25519 shaped as a key-encapsulation mechanism: the sender draws an
/// ephemeral key pair, and its public key is the ciphertext.
pub struct X25519Kem;

/// An X25519 secret key. Its bytes can be put in but not read back.
pub struct X25519SecretKey {
    bytes: [u8; 32],
}

impl View for X25519SecretKey {
    type V = Seq<u8>;

    closed spec fn view(&self) -> Seq<u8> {
        self.bytes@
    }
}

impl X25519SecretKey {
    /// The secret key with the given bytes.
    pub fn from_bytes(bytes: [u8; 32]) -> (key: X25519SecretKey)
        ensures
            key@ == bytes@,
    {
        X25519SecretKey { bytes }
    }

    /// Every secret key has 32 bytes.
    pub proof fn lemma_len(self)
        ensures
            self@.len() == 32,
    {
    }
}

/// The X25519 public key of a secret key.
pub uninterp spec fn x25519_public(secret: Seq<u8>) -> Seq<u8>;

/// The X25519 value that a secret key shares with a public key.
pub uninterp spec fn x25519_shared(secret: Seq<u8>, public: Seq<u8>) -> Seq<u8>;

/// The secret that the key-encapsulation form derives from a shared X25519
/// value: HKDF-SHA256's expand step, without an extract, with the shared
/// value as the pseudorandom key, to 32 bytes.
pub open spec fn spec_kem_secret(shared: Seq<u8>) -> Seq<u8> {
    hkdf_sha256_expanded(shared, X25519_KEM_INFO@, 32)
}

/// Calls `StaticSecret::random_from_rng` of the `x25519-dalek` crate with the
/// operating system's generator. The bytes are random; nothing is claimed of
/// them.
#[verifier::external_body]
fn x25519_random_secret() -> [u8; 32] {
    StaticSecret::random_from_rng(OsRng).to_bytes()
}

/// Calls `PublicKey::from(&StaticSecret)` of the `x25519-dalek` crate.
/// Trusted: the public key is a function of the secret key alone.
#[verifier::external_body]
fn x25519_public_key(secret: &[u8; 32]) -> (public: [u8; 32])
    ensures
        public@ == x25519_public(secret@),
{
    PublicKey::from(&StaticSecret::from(*secret)).to_bytes()
}

/// Calls `StaticSecret::diffie_hellman` of the `x25519-dalek` crate.
/// Trusted: the shared value is a function of the two keys alone, and the
/// exchange is symmetric: whoever holds the secret key of `public` computes
/// the same value from this secret key's public key.
#[verifier::external_body]
fn x25519_diffie_hellman(secret: &[u8; 32], public: &[u8; 32]) -> (shared: [u8; 32])
    ensures
        shared@ == x25519_shared(secret@, public@),
        forall|other: Seq<u8>|
            other.len() == 32 && public@ == #[trigger] x25519_public(other) ==> shared@
                == x25519_shared(other, x25519_public(secret@)),
{
    StaticSecret::from(*secret).diffie_hellman(&PublicKey::from(*public)).to_bytes()
}

impl Dh for X25519Dh {
    type SecretKey = X25519SecretKey;

    type PublicKey = [u8; 32];

    type SharedSecret = [u8; 32];

    open spec fn spec_public_key(sk: Seq<u8>) -> Seq<u8> {
        x25519_public(sk)
    }

    open spec fn spec_diffie_hellman(sk: Seq<u8>, pk: Seq<u8>) -> Seq<u8> {
        x25519_shared(sk, pk)
    }

    /// A fresh secret key with its public key.
    fn generate_keypair() -> (pair: ([u8; 32], X25519SecretKey))
        ensures
            pair.0@ == x25519_public(pair.1@),
    {
        let sk = X25519SecretKey { bytes: x25519_random_secret() };
        let pk = x25519_public_key(&sk.bytes);
        (pk, sk)
    }

    /// The public key of `sk`.
    fn public_key(sk: &X25519SecretKey) -> (pk: [u8; 32])
        ensures
            pk@ == x25519_public(sk@),
    {
        x25519_public_key(&sk.bytes)
    }

    /// The value that `sk` shares with `pk`. The holder of `pk`'s secret key
    /// computes the same value from the public key of `sk`.
    fn diffie_hellman(sk: &X25519SecretKey, pk: &[u8; 32]) -> (shared: [u8; 32])
        ensures
            shared@ == x25519_shared(sk@, pk@),
            forall|other: Seq<u8>|
                other.len() == 32 && pk@ == #[trigger] x25519_public(other) ==> shared@
                    == x25519_shared(other, x25519_public(sk@)),
    {
        x25519_diffie_hellman(&sk.bytes, pk)
    }
}

impl X25519Kem {
    /// Encapsulates to `pk` with the ephemeral secret key `ephemeral`: the
    /// ciphertext is the ephemeral public key, and the shared secret is
    /// derived from the X25519 value that `ephemeral` shares with `pk`.
    /// Whoever holds the secret key of `pk` decapsulates the ciphertext to
    /// the same shared secret.
    pub fn encapsulate_with(ephemeral: &X25519SecretKey, pk: &[u8; 32]) -> (out: ([u8; 32], Vec<u8>))
        ensures
            out.0@ == x25519_public(ephemeral@),
            out.1@ == spec_kem_secret(x25519_shared(ephemeral@, pk@)),
            out.1@.len() == X25519_KEM_SECRET_SIZE,
            forall|sk: Seq<u8>|
                sk.len() == 32 && pk@ == #[trigger] x25519_public(sk) ==> out.1@
                    == X25519Kem::spec_decapsulate(sk, out.0@),
    {
        let eph_pk = X25519Dh::public_key(ephemeral);
        let dh = X25519Dh::diffie_hellman(ephemeral, pk);
        let okm = hkdf_sha256_expand(
            dh.as_slice(),
            X25519_KEM_INFO.as_slice(),
            X25519_KEM_SECRET_SIZE,
        );
        (eph_pk, okm)
    }
}

impl Kem for X25519Kem {
    type PublicKey = [u8; 32];

    type SecretKey = X25519SecretKey;

    type Ciphertext = [u8; 32];

    type SharedSecret = Vec<u8>;

    /// The secret that a secret key recovers from an encapsulation, which
    /// is the sender's ephemeral public key.
    open spec fn spec_decapsulate(sk: Seq<u8>, ct: Seq<u8>) -> Seq<u8> {
        spec_kem_secret(x25519_shared(sk, ct))
    }

    /// A fresh secret key with its public key.
    fn generate_keypair() -> (pair: ([u8; 32], X25519SecretKey))
        ensures
            pair.0@ == x25519_public(pair.1@),
    {
        X25519Dh::generate_keypair()
    }

    /// Encapsulates to `pk` with a fresh ephemeral key. Whoever holds the
    /// secret key of `pk` decapsulates the ciphertext to the shared secret
    /// returned here.
    fn encapsulate(pk: &[u8; 32]) -> (out: ([u8; 32], Vec<u8>))
        ensures
            out.1@.len() == X25519_KEM_SECRET_SIZE,
            exists|ephemeral: Seq<u8>|
                ephemeral.len() == 32 && out.0@ == #[trigger] x25519_public(ephemeral) && out.1@
                    == spec_kem_secret(x25519_shared(ephemeral, pk@)),
            forall|sk: Seq<u8>|
                sk.len() == 32 && pk@ == #[trigger] x25519_public(sk) ==> out.1@
                    == X25519Kem::spec_decapsulate(sk, out.0@),
    {
        let ephemeral = X25519SecretKey { bytes: x25519_random_secret() };
        X25519Kem::encapsulate_with(&ephemeral, pk)
    }

    /// The shared secret that `sk` recovers from the ephemeral public key
    /// `ct`.
    fn decapsulate(sk: &X25519SecretKey, ct: &[u8; 32]) -> (shared: Vec<u8>)
        ensures
            shared@ == X25519Kem::spec_decapsulate(sk@, ct@),
            shared@.len() == X25519_KEM_SECRET_SIZE,
    {
        let dh = X25519Dh::diffie_hellman(sk, ct);
        hkdf_sha256_expand(dh.as_slice(), X25519_KEM_INFO.as_slice(), X25519_KEM_SECRET_SIZE)
    }
}

} // verus!
