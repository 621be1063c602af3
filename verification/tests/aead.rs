use chacha20poly1305::aead::{Aead, Payload};
use chacha20poly1305::{ChaCha20Poly1305, KeyInit, Nonce};
use hybrid_kyber::crypto::aead::{
    compute_nonce, decrypt, encrypt, is_sealable, MAX_MESSAGE_LEN, TAG_SIZE,
};

#[test]
fn test_encrypt_decrypt_roundtrip() {
    let key = [0x42u8; 32];
    let nonce_base = [0x01u8; 12];
    let seq = 1u64;
    let aad = b"session-context";
    let plaintext = b"hello, post-quantum world!";

    let ciphertext = encrypt(&key, &nonce_base, seq, aad, plaintext);
    let decrypted = decrypt(&key, &nonce_base, seq, aad, &ciphertext).unwrap();

    assert_eq!(decrypted, plaintext);
}

#[test]
fn test_wrong_seq_fails() {
    let key = [0x42u8; 32];
    let nonce_base = [0x01u8; 12];
    let aad = b"session-context";
    let plaintext = b"secret message";

    let ciphertext = encrypt(&key, &nonce_base, 1, aad, plaintext);
    let result = decrypt(&key, &nonce_base, 2, aad, &ciphertext);

    assert!(result.is_err());
}

#[test]
fn test_tampered_ciphertext_fails() {
    let key = [0x42u8; 32];
    let nonce_base = [0x01u8; 12];
    let seq = 1u64;
    let aad = b"session-context";
    let plaintext = b"secret message";

    let mut ciphertext = encrypt(&key, &nonce_base, seq, aad, plaintext);
    ciphertext[0] ^= 0xFF;

    let result = decrypt(&key, &nonce_base, seq, aad, &ciphertext);
    assert!(result.is_err());
}

#[test]
fn test_every_flipped_byte_fails() {
    let key = [0x42u8; 32];
    let nonce_base = [0x01u8; 12];
    let aad = b"session-context";
    let plaintext = b"secret message";

    let sealed = encrypt(&key, &nonce_base, 7, aad, plaintext);
    for i in 0..sealed.len() {
        let mut changed = sealed.clone();
        changed[i] ^= 0x01;
        assert!(decrypt(&key, &nonce_base, 7, aad, &changed).is_err());
    }
    assert_eq!(decrypt(&key, &nonce_base, 7, aad, &sealed).unwrap(), plaintext);
}

#[test]
fn test_nonce_xors_sequence_into_last_eight_bytes() {
    let base = [0x01u8; 12];
    assert_eq!(compute_nonce(&base, 0), base);
    assert_eq!(compute_nonce(&base, 1), [1, 1, 1, 1, 1, 1, 1, 1, 1, 1, 1, 0]);
    assert_eq!(
        compute_nonce(&base, 0x0102_0304_0506_0708),
        [1, 1, 1, 1, 0, 3, 2, 5, 4, 7, 6, 9]
    );
    assert_eq!(
        compute_nonce(&[0u8; 12], u64::MAX),
        [0, 0, 0, 0, 0xFF, 0xFF, 0xFF, 0xFF, 0xFF, 0xFF, 0xFF, 0xFF]
    );
}

#[test]
fn test_sealed_is_ciphertext_then_tag() {
    let key = [0x42u8; 32];
    let nonce_base = [0x01u8; 12];
    let aad = b"session-context";
    let plaintext = b"secret message";

    let sealed = encrypt(&key, &nonce_base, 5, aad, plaintext);
    assert_eq!(sealed.len(), plaintext.len() + TAG_SIZE);
    assert_ne!(&sealed[..plaintext.len()], &plaintext[..]);

    let nonce = compute_nonce(&nonce_base, 5);
    let cipher = ChaCha20Poly1305::new_from_slice(&key).unwrap();
    let expected = cipher
        .encrypt(Nonce::from_slice(&nonce), Payload { msg: plaintext, aad })
        .unwrap();
    assert_eq!(sealed, expected);
}

#[test]
fn test_published_vector() {
    // RFC 8439, section 2.8.2.
    let key: [u8; 32] = [
        0x80, 0x81, 0x82, 0x83, 0x84, 0x85, 0x86, 0x87, 0x88, 0x89, 0x8a, 0x8b, 0x8c, 0x8d, 0x8e,
        0x8f, 0x90, 0x91, 0x92, 0x93, 0x94, 0x95, 0x96, 0x97, 0x98, 0x99, 0x9a, 0x9b, 0x9c, 0x9d,
        0x9e, 0x9f,
    ];
    let nonce_base: [u8; 12] = [
        0x07, 0x00, 0x00, 0x00, 0x40, 0x41, 0x42, 0x43, 0x44, 0x45, 0x46, 0x47,
    ];
    let aad: [u8; 12] = [
        0x50, 0x51, 0x52, 0x53, 0xc0, 0xc1, 0xc2, 0xc3, 0xc4, 0xc5, 0xc6, 0xc7,
    ];
    let plaintext = b"Ladies and Gentlemen of the class of '99: If I could offer you only one tip for the future, sunscreen would be it.";
    let sealed = encrypt(&key, &nonce_base, 0, &aad, plaintext);
    assert_eq!(sealed.len(), 114 + 16);
    assert_eq!(
        &sealed[..16],
        &[
            0xd3, 0x1a, 0x8d, 0x34, 0x64, 0x8e, 0x60, 0xdb, 0x7b, 0x86, 0xaf, 0xbc, 0x53, 0xef,
            0x7e, 0xc2
        ]
    );
    assert_eq!(
        &sealed[114..],
        &[
            0x1a, 0xe1, 0x0b, 0x59, 0x4f, 0x09, 0xe2, 0x6a, 0x7e, 0x90, 0x2e, 0xcb, 0xd0, 0x60,
            0x06, 0x91
        ]
    );
    assert_eq!(decrypt(&key, &nonce_base, 0, &aad, &sealed).unwrap(), plaintext);
}

#[test]
fn test_short_input_fails() {
    let key = [0x42u8; 32];
    let nonce_base = [0x01u8; 12];
    assert!(decrypt(&key, &nonce_base, 1, b"", &[]).is_err());
    assert!(decrypt(&key, &nonce_base, 1, b"", &[0u8; 15]).is_err());
}

#[test]
fn test_empty_plaintext_roundtrip() {
    let key = [0x42u8; 32];
    let nonce_base = [0x01u8; 12];
    let sealed = encrypt(&key, &nonce_base, 1, b"aad", b"");
    assert_eq!(sealed.len(), TAG_SIZE);
    assert_eq!(decrypt(&key, &nonce_base, 1, b"aad", &sealed).unwrap(), b"");
    assert!(decrypt(&key, &nonce_base, 1, b"other", &sealed).is_err());
    assert!(decrypt(&[0x43u8; 32], &nonce_base, 1, b"aad", &sealed).is_err());
}

#[test]
fn test_sealable_lengths() {
    assert!(is_sealable(0));
    assert!(is_sealable(1 << 20));
    // 2^32 - 2 blocks of 64 bytes are the most.
    assert_eq!(MAX_MESSAGE_LEN, 64 * ((1u64 << 32) - 2));
    assert!(is_sealable(274_877_906_816));
    assert!(is_sealable(64 * 0xFFFF_FFFE));
    assert!(!is_sealable(64 * 0xFFFF_FFFE + 1));
    assert!(!is_sealable(64 * 0xFFFF_FFFF - 1));
    assert!(!is_sealable(64 * 0xFFFF_FFFF));
    assert!(!is_sealable(usize::MAX));
}
