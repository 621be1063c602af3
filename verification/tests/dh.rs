use hybrid_kyber::crypto::traits::Dh;
use hybrid_kyber::crypto::x25519::{X25519Dh, X25519SecretKey};

#[test]
fn test_dh_symmetry() {
    for _ in 0..50 {
        let (pk_a, sk_a) = X25519Dh::generate_keypair();
        let (pk_b, sk_b) = X25519Dh::generate_keypair();
        assert_eq!(
            X25519Dh::diffie_hellman(&sk_a, &pk_b),
            X25519Dh::diffie_hellman(&sk_b, &pk_a)
        );
    }
}

#[test]
fn test_dh_public_key_belongs_to_secret_key() {
    let (pk, sk) = X25519Dh::generate_keypair();
    assert_eq!(X25519Dh::public_key(&sk), pk);
    let chosen = X25519SecretKey::from_bytes([0x11; 32]);
    let again = X25519SecretKey::from_bytes([0x11; 32]);
    assert_eq!(X25519Dh::public_key(&chosen), X25519Dh::public_key(&again));
    assert_ne!(X25519Dh::public_key(&chosen), pk);
    let (other_pk, _) = X25519Dh::generate_keypair();
    assert_ne!(other_pk, pk);
}

#[test]
fn test_dh_published_vector() {
    // RFC 7748, section 6.1.
    let alice_sk: [u8; 32] = [
        0x77, 0x07, 0x6d, 0x0a, 0x73, 0x18, 0xa5, 0x7d, 0x3c, 0x16, 0xc1, 0x72, 0x51, 0xb2, 0x66,
        0x45, 0xdf, 0x4c, 0x2f, 0x87, 0xeb, 0xc0, 0x99, 0x2a, 0xb1, 0x77, 0xfb, 0xa5, 0x1d, 0xb9,
        0x2c, 0x2a,
    ];
    let alice_pk: [u8; 32] = [
        0x85, 0x20, 0xf0, 0x09, 0x89, 0x30, 0xa7, 0x54, 0x74, 0x8b, 0x7d, 0xdc, 0xb4, 0x3e, 0xf7,
        0x5a, 0x0d, 0xbf, 0x3a, 0x0d, 0x26, 0x38, 0x1a, 0xf4, 0xeb, 0xa4, 0xa9, 0x8e, 0xaa, 0x9b,
        0x4e, 0x6a,
    ];
    let bob_sk: [u8; 32] = [
        0x5d, 0xab, 0x08, 0x7e, 0x62, 0x4a, 0x8a, 0x4b, 0x79, 0xe1, 0x7f, 0x8b, 0x83, 0x80, 0x0e,
        0xe6, 0x6f, 0x3b, 0xb1, 0x29, 0x26, 0x18, 0xb6, 0xfd, 0x1c, 0x2f, 0x8b, 0x27, 0xff, 0x88,
        0xe0, 0xeb,
    ];
    let bob_pk: [u8; 32] = [
        0xde, 0x9e, 0xdb, 0x7d, 0x7b, 0x7d, 0xc1, 0xb4, 0xd3, 0x5b, 0x61, 0xc2, 0xec, 0xe4, 0x35,
        0x37, 0x3f, 0x83, 0x43, 0xc8, 0x5b, 0x78, 0x67, 0x4d, 0xad, 0xfc, 0x7e, 0x14, 0x6f, 0x88,
        0x2b, 0x4f,
    ];
    let shared: [u8; 32] = [
        0x4a, 0x5d, 0x9d, 0x5b, 0xa4, 0xce, 0x2d, 0xe1, 0x72, 0x8e, 0x3b, 0xf4, 0x80, 0x35, 0x0f,
        0x25, 0xe0, 0x7e, 0x21, 0xc9, 0x47, 0xd1, 0x9e, 0x33, 0x76, 0xf0, 0x9b, 0x3c, 0x1e, 0x16,
        0x17, 0x42,
    ];
    let alice = X25519SecretKey::from_bytes(alice_sk);
    let bob = X25519SecretKey::from_bytes(bob_sk);
    assert_eq!(X25519Dh::public_key(&alice), alice_pk);
    assert_eq!(X25519Dh::public_key(&bob), bob_pk);
    assert_eq!(X25519Dh::diffie_hellman(&alice, &bob_pk), shared);
    assert_eq!(X25519Dh::diffie_hellman(&bob, &alice_pk), shared);
}
