use hybrid_kyber::crypto::hkdf::derive_session_keys;
use hybrid_kyber::crypto::kyber::Kyber768Kem;
use hybrid_kyber::crypto::traits::{Dh, Kem};
use hybrid_kyber::crypto::x25519::{X25519Dh, X25519SecretKey};
use hybrid_kyber::protocol::handshake::{
    client_hello_with, generate_client_hello, handle_client_hello, handle_server_hello,
    server_hello_with, HandshakeError,
};
use hybrid_kyber::protocol::messages::{ClientHello, ServerHello};
use hybrid_kyber::protocol::transcript::compute_transcript;

#[test]
fn test_full_handshake() {
    let (client_hello, client_state) = generate_client_hello();

    let (server_hello, server_session) = handle_client_hello(client_hello).unwrap();

    let client_session = handle_server_hello(server_hello, client_state).unwrap();

    assert_eq!(
        client_session.keys.k_client_to_server,
        server_session.keys.k_client_to_server
    );
    assert_eq!(
        client_session.keys.k_server_to_client,
        server_session.keys.k_server_to_client
    );
    assert_eq!(client_session.transcript, server_session.transcript);
}

#[test]
fn test_handshake_agrees_on_everything() {
    for _ in 0..10 {
        let (client_hello, client_state) = generate_client_hello();
        let sent = client_hello.clone();
        let (server_hello, server_session) = handle_client_hello(client_hello).unwrap();
        let received = server_hello.clone();
        let client_session = handle_server_hello(server_hello, client_state).unwrap();

        assert_eq!(client_session.keys.k_client_to_server, server_session.keys.k_client_to_server);
        assert_eq!(client_session.keys.k_server_to_client, server_session.keys.k_server_to_client);
        assert_eq!(client_session.keys.nonce_base_c2s, server_session.keys.nonce_base_c2s);
        assert_eq!(client_session.keys.nonce_base_s2c, server_session.keys.nonce_base_s2c);
        assert_eq!(client_session.transcript, server_session.transcript);
        assert_eq!(client_session.transcript, compute_transcript(&sent, &received));
        assert!(client_session.is_client);
        assert!(!server_session.is_client);
        assert_ne!(client_session.keys.k_client_to_server, client_session.keys.k_server_to_client);
    }
}

#[test]
fn test_client_hello_shape() {
    let (client_hello, state) = generate_client_hello();
    assert_eq!(client_hello.version, 1);
    assert_eq!(client_hello.kyber_pk.len(), 1184);
    assert_eq!(state.client_hello().version, 1);
    assert_eq!(state.client_hello().kyber_pk, client_hello.kyber_pk);
    assert_eq!(state.client_hello().x25519_pk, client_hello.x25519_pk);

    let (other, _) = generate_client_hello();
    assert_ne!(other.kyber_pk, client_hello.kyber_pk);
    assert_ne!(other.x25519_pk, client_hello.x25519_pk);
}

#[test]
fn test_server_hello_shape() {
    let (client_hello, _) = generate_client_hello();
    let (server_hello, session) = handle_client_hello(client_hello).unwrap();
    assert_eq!(server_hello.kyber_ct.len(), 1088);
    assert!(!session.is_client);
}

#[test]
fn test_invalid_version_is_refused() {
    for version in [0u8, 2, 255] {
        let (mut client_hello, _) = generate_client_hello();
        client_hello.version = version;
        assert!(matches!(
            handle_client_hello(client_hello),
            Err(HandshakeError::InvalidVersion)
        ));
    }
}

#[test]
fn test_invalid_public_key_size_is_refused() {
    for len in [0usize, 1, 1183, 1185, 2400] {
        let client_hello = ClientHello { version: 1, kyber_pk: vec![0xAA; len], x25519_pk: [0xBB; 32] };
        assert!(matches!(
            handle_client_hello(client_hello),
            Err(HandshakeError::InvalidKeySize)
        ));
    }
}

#[test]
fn test_version_is_checked_before_key_size() {
    let client_hello = ClientHello { version: 2, kyber_pk: vec![0xAA; 10], x25519_pk: [0xBB; 32] };
    assert!(matches!(
        handle_client_hello(client_hello),
        Err(HandshakeError::InvalidVersion)
    ));
}

#[test]
fn test_invalid_ciphertext_size_is_refused() {
    for len in [0usize, 1087, 1089, 1184] {
        let (_, state) = generate_client_hello();
        let server_hello = ServerHello { kyber_ct: vec![0xCC; len], x25519_pk: [0xDD; 32] };
        assert!(matches!(
            handle_server_hello(server_hello, state),
            Err(HandshakeError::InvalidKeySize)
        ));
    }
}

#[test]
fn test_changed_server_hello_gives_other_keys() {
    let (client_hello, state) = generate_client_hello();
    let (mut server_hello, server_session) = handle_client_hello(client_hello).unwrap();
    server_hello.x25519_pk[0] ^= 1;
    let client_session = handle_server_hello(server_hello, state).unwrap();
    assert_ne!(client_session.transcript, server_session.transcript);
    assert_ne!(client_session.keys.k_client_to_server, server_session.keys.k_client_to_server);
    assert_ne!(client_session.keys.k_server_to_client, server_session.keys.k_server_to_client);
}

#[test]
fn test_handshake_with_chosen_keys() {
    let (kyber_pk, kyber_sk) = Kyber768Kem::generate_keypair();
    let client_sk = X25519SecretKey::from_bytes([0x11; 32]);
    let client_pk = X25519Dh::public_key(&client_sk);
    let (client_hello, state) = client_hello_with(
        &kyber_pk,
        kyber_sk,
        client_pk,
        X25519SecretKey::from_bytes([0x11; 32]),
    );
    assert_eq!(client_hello.version, 1);
    assert_eq!(client_hello.kyber_pk, kyber_pk.as_bytes());
    assert_eq!(client_hello.x25519_pk, client_pk);

    let server_sk = X25519SecretKey::from_bytes([0x22; 32]);
    let server_pk = X25519Dh::public_key(&server_sk);
    let (kyber_ct, ss_pq) = Kyber768Kem::encapsulate(&kyber_pk);
    let (server_hello, server_session) =
        server_hello_with(&client_hello, &kyber_ct, &ss_pq, server_pk, &server_sk);
    assert_eq!(server_hello.kyber_ct, kyber_ct.as_bytes());
    assert_eq!(server_hello.x25519_pk, server_pk);

    let transcript = compute_transcript(&client_hello, &server_hello);
    let shared = X25519Dh::diffie_hellman(&server_sk, &client_pk);
    let expected = derive_session_keys(&ss_pq, &shared, &transcript);
    assert_eq!(server_session.transcript, transcript);
    assert_eq!(server_session.keys.k_client_to_server, expected.k_client_to_server);
    assert_eq!(server_session.keys.k_server_to_client, expected.k_server_to_client);
    assert_eq!(server_session.keys.nonce_base_c2s, expected.nonce_base_c2s);
    assert_eq!(server_session.keys.nonce_base_s2c, expected.nonce_base_s2c);
    assert!(!server_session.is_client);

    let client_session = handle_server_hello(server_hello, state).unwrap();
    assert!(client_session.is_client);
    assert_eq!(client_session.transcript, transcript);
    assert_eq!(client_session.keys.k_client_to_server, expected.k_client_to_server);
    assert_eq!(client_session.keys.k_server_to_client, expected.k_server_to_client);
    assert_eq!(client_session.keys.nonce_base_c2s, expected.nonce_base_c2s);
    assert_eq!(client_session.keys.nonce_base_s2c, expected.nonce_base_s2c);
}

#[test]
fn test_handshake_over_the_wire() {
    let (client_hello, state) = generate_client_hello();
    let received = ClientHello::from_bytes(&client_hello.to_bytes()).unwrap();
    let (server_hello, server_session) = handle_client_hello(received).unwrap();
    let answer = ServerHello::from_bytes(&server_hello.to_bytes()).unwrap();
    let client_session = handle_server_hello(answer, state).unwrap();
    assert_eq!(client_session.keys.k_client_to_server, server_session.keys.k_client_to_server);
    assert_eq!(client_session.keys.k_server_to_client, server_session.keys.k_server_to_client);
    assert_eq!(client_session.transcript, server_session.transcript);
}
