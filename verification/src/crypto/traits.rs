//! The two capability interfaces that the handshake is written against.
//!
//! Keys, ciphertexts and shared values are byte strings to the contracts:
//! every associated type is viewed as a `Seq<u8>`.

use vstd::prelude::*;

verus! {

/// A key-encapsulation mechanism.
///
/// Decapsulation is a function of the secret key and the ciphertext.
/// Decapsulating a ciphertext with the secret key of the pair it was
/// encapsulated to is expected to give back the shared secret that
/// encapsulation returned; each algorithm states in the contract of its
/// `encapsulate` how much of that it guarantees.
pub trait Kem {
    type PublicKey: View<V = Seq<u8>>;

    type SecretKey: View<V = Seq<u8>>;

    type Ciphertext: View<V = Seq<u8>>;

    type SharedSecret: View<V = Seq<u8>>;

    /// The shared secret that a secret key recovers from a ciphertext.
    spec fn spec_decapsulate(sk: Seq<u8>, ct: Seq<u8>) -> Seq<u8>;

    /// Generates a fresh key pair.
    fn generate_keypair() -> (Self::PublicKey, Self::SecretKey);

    /// Encapsulates a fresh shared secret to a public key.
    fn encapsulate(pk: &Self::PublicKey) -> (Self::Ciphertext, Self::SharedSecret);

    /// Recovers the shared secret of a ciphertext with a secret key.
    fn decapsulate(sk: &Self::SecretKey, ct: &Self::Ciphertext) -> (shared: Self::SharedSecret)
        ensures
            shared@ == Self::spec_decapsulate(sk@, ct@),
    ;
}

/// A Diffie-Hellman exchange.
///
/// The exchange is symmetric: two parties that each combine their own secret
/// key with the other's public key compute the same shared value.
pub trait Dh {
    type SecretKey: View<V = Seq<u8>>;

    type PublicKey: View<V = Seq<u8>>;

    type SharedSecret: View<V = Seq<u8>>;

    /// The public key that belongs to a secret key.
    spec fn spec_public_key(sk: Seq<u8>) -> Seq<u8>;

    /// The value that a secret key shares with a public key.
    spec fn spec_diffie_hellman(sk: Seq<u8>, pk: Seq<u8>) -> Seq<u8>;

    /// Generates a fresh secret key with the public key that belongs to it.
    fn generate_keypair() -> (pair: (Self::PublicKey, Self::SecretKey))
        ensures
            pair.0@ == Self::spec_public_key(pair.1@),
    ;

    /// Derives the public key that belongs to a secret key.
    fn public_key(sk: &Self::SecretKey) -> (pk: Self::PublicKey)
        ensures
            pk@ == Self::spec_public_key(sk@),
    ;

    /// Computes the value shared between a secret key and a public key. The
    /// holder of the public key's secret key computes the same value from
    /// the public key of `sk`.
    fn diffie_hellman(sk: &Self::SecretKey, pk: &Self::PublicKey) -> (shared: Self::SharedSecret)
        ensures
            shared@ == Self::spec_diffie_hellman(sk@, pk@),
            forall|other: Self::SecretKey|
                pk@ == #[trigger] Self::spec_public_key(other@) ==> shared@
                    == Self::spec_diffie_hellman(other@, Self::spec_public_key(sk@)),
    ;
}

} // verus!
