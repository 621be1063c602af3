use hybrid_kyber::protocol::messages::{ClientHello, ServerHello};
use hybrid_kyber::protocol::transcript::compute_transcript;
use sha2::{Digest, Sha256};

#[test]
fn test_transcript_deterministic() {
    let ch = ClientHello {
        version: 1,
        kyber_pk: vec![0xAA; 1184],
        x25519_pk: [0xBB; 32],
    };
    let sh = ServerHello {
        kyber_ct: vec![0xCC; 1088],
        x25519_pk: [0xDD; 32],
    };

    let t1 = compute_transcript(&ch, &sh);
    let t2 = compute_transcript(&ch, &sh);

    assert_eq!(t1, t2);
}

#[test]
fn test_transcript_changes_with_input() {
    let ch = ClientHello {
        version: 1,
        kyber_pk: vec![0xAA; 1184],
        x25519_pk: [0xBB; 32],
    };
    let sh1 = ServerHello {
        kyber_ct: vec![0xCC; 1088],
        x25519_pk: [0xDD; 32],
    };
    let sh2 = ServerHello {
        kyber_ct: vec![0xCC; 1088],
        x25519_pk: [0xEE; 32],
    };

    let t1 = compute_transcript(&ch, &sh1);
    let t2 = compute_transcript(&ch, &sh2);

    assert_ne!(t1, t2);
}

#[test]
fn test_transcript_is_sha256_of_both_messages() {
    let ch = ClientHello { version: 1, kyber_pk: vec![0xAA; 1184], x25519_pk: [0xBB; 32] };
    let sh = ServerHello { kyber_ct: vec![0xCC; 1088], x25519_pk: [0xDD; 32] };
    let mut input = ch.to_bytes();
    input.extend_from_slice(&sh.to_bytes());
    let expected: [u8; 32] = Sha256::digest(&input).into();
    assert_eq!(compute_transcript(&ch, &sh), expected);

    let mut hasher = Sha256::new();
    hasher.update(&ch.to_bytes());
    hasher.update(&sh.to_bytes());
    let chained: [u8; 32] = hasher.finalize().into();
    assert_eq!(compute_transcript(&ch, &sh), chained);
}

#[test]
fn test_transcript_of_empty_fields() {
    // The messages are 1 || 0 || 32 zero bytes and 0 || 32 zero bytes.
    let ch = ClientHello { version: 1, kyber_pk: vec![], x25519_pk: [0; 32] };
    let sh = ServerHello { kyber_ct: vec![], x25519_pk: [0; 32] };
    let mut input = vec![1u8, 0];
    input.extend_from_slice(&[0u8; 32]);
    input.push(0);
    input.extend_from_slice(&[0u8; 32]);
    let expected: [u8; 32] = Sha256::digest(&input).into();
    assert_eq!(compute_transcript(&ch, &sh), expected);
}

#[test]
fn test_transcript_changes_with_every_field() {
    let ch = ClientHello { version: 1, kyber_pk: vec![0xAA; 1184], x25519_pk: [0xBB; 32] };
    let sh = ServerHello { kyber_ct: vec![0xCC; 1088], x25519_pk: [0xDD; 32] };
    let base = compute_transcript(&ch, &sh);

    let mut other = ch.clone();
    other.version = 2;
    assert_ne!(compute_transcript(&other, &sh), base);
    let mut other = ch.clone();
    other.kyber_pk[1183] ^= 1;
    assert_ne!(compute_transcript(&other, &sh), base);
    let mut other = ch.clone();
    other.x25519_pk[0] ^= 1;
    assert_ne!(compute_transcript(&other, &sh), base);
    let mut other = sh.clone();
    other.kyber_ct[0] ^= 1;
    assert_ne!(compute_transcript(&ch, &other), base);
    let mut other = sh.clone();
    other.x25519_pk[31] ^= 1;
    assert_ne!(compute_transcript(&ch, &other), base);
}
