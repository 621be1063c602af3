//! Kyber768, the post-quantum half of the handshake.

use pqcrypto_kyber::kyber768;
use pqcrypto_traits::kem::{Ciphertext, PublicKey, SecretKey, SharedSecret};
use vstd::prelude::*;
use vstd::slice::slice_to_vec;

use crate::crypto::traits::Kem;

verus! {

/// Length of a Kyber768 public key.
pub const KYBER768_PUBLIC_KEY_SIZE: usize = 1184;

/// Length of a Kyber768 secret key.
pub const KYBER768_SECRET_KEY_SIZE: usize = 2400;

/// Length of a Kyber768 ciphertext.
pub const KYBER768_CIPHERTEXT_SIZE: usize = 1088;

/// Length of the secret that a Kyber768 encapsulation shares.
pub const KYBER768_SHARED_SECRET_SIZE: usize = 32;

/// The Kyber768 key-encapsulation mechanism.
pub struct Kyber768Kem;

/// A Kyber768 public key: exactly 1184 bytes.
pub struct KyberPublicKey {
    bytes: Vec<u8>,
}

/// A Kyber768 secret key: exactly 2400 bytes, which can be put in but not
/// read back.
pub struct KyberSecretKey {
    bytes: Vec<u8>,
}

/// A Kyber768 ciphertext: exactly 1088 bytes.
pub struct KyberCiphertext {
    bytes: Vec<u8>,
}

impl View for KyberPublicKey {
    type V = Seq<u8>;

    closed spec fn view(&self) -> Seq<u8> {
        self.bytes@
    }
}

impl View for KyberSecretKey {
    type V = Seq<u8>;

    closed spec fn view(&self) -> Seq<u8> {
        self.bytes@
    }
}

impl View for KyberCiphertext {
    type V = Seq<u8>;

    closed spec fn view(&self) -> Seq<u8> {
        self.bytes@
    }
}

impl KyberPublicKey {
    #[verifier::type_invariant]
    spec fn well_formed(self) -> bool {
        self.bytes@.len() == KYBER768_PUBLIC_KEY_SIZE
    }

    /// Reads a public key; `None` unless `bytes` has the length of one.
    pub fn from_bytes(bytes: &[u8]) -> (key: Option<KyberPublicKey>)
        ensures
            key is Some <==> bytes@.len() == KYBER768_PUBLIC_KEY_SIZE,
            key matches Some(k) ==> k@ == bytes@,
    {
        if bytes.len() != KYBER768_PUBLIC_KEY_SIZE {
            None
        } else {
            Some(KyberPublicKey { bytes: slice_to_vec(bytes) })
        }
    }

    /// The key's bytes.
    pub fn as_bytes(&self) -> (bytes: &[u8])
        ensures
            bytes@ == self@,
            bytes@.len() == KYBER768_PUBLIC_KEY_SIZE,
    {
        proof {
            use_type_invariant(self);
        }
        self.bytes.as_slice()
    }
}

impl KyberSecretKey {
    #[verifier::type_invariant]
    spec fn well_formed(self) -> bool {
        self.bytes@.len() == KYBER768_SECRET_KEY_SIZE
    }

    /// Reads a secret key; `None` unless `bytes` has the length of one.
    pub fn from_bytes(bytes: &[u8]) -> (key: Option<KyberSecretKey>)
        ensures
            key is Some <==> bytes@.len() == KYBER768_SECRET_KEY_SIZE,
            key matches Some(k) ==> k@ == bytes@,
    {
        if bytes.len() != KYBER768_SECRET_KEY_SIZE {
            None
        } else {
            Some(KyberSecretKey { bytes: slice_to_vec(bytes) })
        }
    }

    /// The key's bytes, for the decapsulation alone.
    fn as_bytes(&self) -> (bytes: &[u8])
        ensures
            bytes@ == self@,
            bytes@.len() == KYBER768_SECRET_KEY_SIZE,
    {
        proof {
            use_type_invariant(self);
        }
        self.bytes.as_slice()
    }
}

impl KyberCiphertext {
    #[verifier::type_invariant]
    spec fn well_formed(self) -> bool {
        self.bytes@.len() == KYBER768_CIPHERTEXT_SIZE
    }

    /// Reads a ciphertext; `None` unless `bytes` has the length of one.
    pub fn from_bytes(bytes: &[u8]) -> (ct: Option<KyberCiphertext>)
        ensures
            ct is Some <==> bytes@.len() == KYBER768_CIPHERTEXT_SIZE,
            ct matches Some(c) ==> c@ == bytes@,
    {
        if bytes.len() != KYBER768_CIPHERTEXT_SIZE {
            None
        } else {
            Some(KyberCiphertext { bytes: slice_to_vec(bytes) })
        }
    }

    /// The ciphertext's bytes.
    pub fn as_bytes(&self) -> (bytes: &[u8])
        ensures
            bytes@ == self@,
            bytes@.len() == KYBER768_CIPHERTEXT_SIZE,
    {
        proof {
            use_type_invariant(self);
        }
        self.bytes.as_slice()
    }
}

/// The shared secret that Kyber768 decapsulation computes from a secret key
/// and a ciphertext.
pub uninterp spec fn kyber768_decapsulated(secret_key: Seq<u8>, ciphertext: Seq<u8>) -> Seq<u8>;

/// Calls `kyber768::keypair` of the `pqcrypto-kyber` crate. Trusted: the
/// public key has 1184 bytes and the secret key 2400. The keys are random;
/// nothing else is claimed of them.
#[verifier::external_body]
fn kyber768_keypair() -> (pair: (Vec<u8>, Vec<u8>))
    ensures
        pair.0@.len() == KYBER768_PUBLIC_KEY_SIZE,
        pair.1@.len() == KYBER768_SECRET_KEY_SIZE,
{
    let (pk, sk) = kyber768::keypair();
    (pk.as_bytes().to_vec(), sk.as_bytes().to_vec())
}

/// Calls `kyber768::encapsulate` of the `pqcrypto-kyber` crate and returns
/// the ciphertext first. Trusted: the ciphertext has 1088 bytes and the
/// shared secret 32. Both depend on fresh randomness; nothing else is claimed
/// of them.
#[verifier::external_body]
fn kyber768_encapsulate(public_key: &[u8]) -> (out: (Vec<u8>, Vec<u8>))
    requires
        public_key@.len() == KYBER768_PUBLIC_KEY_SIZE,
    ensures
        out.0@.len() == KYBER768_CIPHERTEXT_SIZE,
        out.1@.len() == KYBER768_SHARED_SECRET_SIZE,
{
    let pk = kyber768::PublicKey::from_bytes(public_key).expect("public key length");
    let (ss, ct) = kyber768::encapsulate(&pk);
    (ct.as_bytes().to_vec(), ss.as_bytes().to_vec())
}

/// Calls `kyber768::decapsulate` of the `pqcrypto-kyber` crate. Trusted: the
/// 32 bytes returned are a function of the secret key and the ciphertext
/// alone.
#[verifier::external_body]
fn kyber768_decapsulate(secret_key: &[u8], ciphertext: &[u8]) -> (shared: Vec<u8>)
    requires
        secret_key@.len() == KYBER768_SECRET_KEY_SIZE,
        ciphertext@.len() == KYBER768_CIPHERTEXT_SIZE,
    ensures
        shared@ == kyber768_decapsulated(secret_key@, ciphertext@),
        shared@.len() == KYBER768_SHARED_SECRET_SIZE,
{
    let sk = kyber768::SecretKey::from_bytes(secret_key).expect("secret key length");
    let ct = kyber768::Ciphertext::from_bytes(ciphertext).expect("ciphertext length");
    kyber768::decapsulate(&ct, &sk).as_bytes().to_vec()
}

impl Kem for Kyber768Kem {
    type PublicKey = KyberPublicKey;

    type SecretKey = KyberSecretKey;

    type Ciphertext = KyberCiphertext;

    type SharedSecret = Vec<u8>;

    open spec fn spec_decapsulate(sk: Seq<u8>, ct: Seq<u8>) -> Seq<u8> {
        kyber768_decapsulated(sk, ct)
    }

    /// A fresh Kyber768 key pair.
    fn generate_keypair() -> (pair: (KyberPublicKey, KyberSecretKey))
        ensures
            pair.0@.len() == KYBER768_PUBLIC_KEY_SIZE,
            pair.1@.len() == KYBER768_SECRET_KEY_SIZE,
    {
        let (pk, sk) = kyber768_keypair();
        (KyberPublicKey { bytes: pk }, KyberSecretKey { bytes: sk })
    }

    /// A fresh shared secret of 32 bytes and the 1088-byte ciphertext that
    /// carries it to the holder of `pk`'s secret key.
    fn encapsulate(pk: &KyberPublicKey) -> (out: (KyberCiphertext, Vec<u8>))
        ensures
            out.0@.len() == KYBER768_CIPHERTEXT_SIZE,
            out.1@.len() == KYBER768_SHARED_SECRET_SIZE,
    {
        let (ct, ss) = kyber768_encapsulate(pk.as_bytes());
        (KyberCiphertext { bytes: ct }, ss)
    }

    /// The 32-byte secret that `sk` recovers from `ct`.
    fn decapsulate(sk: &KyberSecretKey, ct: &KyberCiphertext) -> (shared: Vec<u8>)
        ensures
            shared@ == kyber768_decapsulated(sk@, ct@),
            shared@.len() == KYBER768_SHARED_SECRET_SIZE,
    {
        kyber768_decapsulate(sk.as_bytes(), ct.as_bytes())
    }
}

} // verus!
