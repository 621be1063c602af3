//! The handshake: one Kyber768 encapsulation and one X25519 exchange, whose
//! two secrets are combined into session keys that are bound to the
//! transcript of the messages exchanged.
//!
//! The initiator sends a `ClientHello` and keeps a `ClientHandshakeState`;
//! the responder answers with a `ServerHello` and has its `Session` at once;
//! the initiator turns the answer and its state into its own `Session`. A
//! refused message ends the attempt: the caller starts over with fresh keys.

use vstd::prelude::*;
use vstd::slice::slice_to_vec;

use crate::crypto::hkdf::{derive_session_keys, spec_session_keys, SessionKeys, SessionKeysView};
use crate::crypto::kyber::{
    kyber768_decapsulated, Kyber768Kem, KyberCiphertext, KyberPublicKey, KyberSecretKey,
    KYBER768_CIPHERTEXT_SIZE, KYBER768_PUBLIC_KEY_SIZE, KYBER768_SECRET_KEY_SIZE,
    KYBER768_SHARED_SECRET_SIZE,
};
use crate::crypto::traits::{Dh, Kem};
use crate::crypto::x25519::{x25519_public, x25519_shared, X25519Dh, X25519Kem, X25519SecretKey};
use crate::protocol::messages::{ClientHello, ClientHelloView, ServerHello, ServerHelloView};
use crate::protocol::transcript::{compute_transcript, spec_transcript};

verus! {

/// The only protocol version there is.
pub const PROTOCOL_VERSION: u8 = 1;

/// What the initiator keeps between its two steps: the hello it sent and
/// the secret keys that belong to it. The value is used up by
/// `handle_server_hello`.
pub struct ClientHandshakeState {
    client_hello: ClientHello,
    kyber_sk: KyberSecretKey,
    x25519_sk: X25519SecretKey,
    x25519_pk: [u8; 32],
}

/// The outcome of a handshake: the session keys, the transcript they are
/// bound to, and the side that holds them.
pub struct Session {
    pub keys: SessionKeys,
    pub transcript: [u8; 32],
    pub is_client: bool,
}

/// Why a handshake message was refused.
#[derive(Debug)]
pub enum HandshakeError {
    InvalidVersion,
    InvalidKeySize,
    DecapsulationFailed,
}

/// `ClientHandshakeState` as mathematical values.
pub struct ClientHandshakeStateView {
    pub client_hello: ClientHelloView,
    pub kyber_sk: Seq<u8>,
    pub x25519_sk: Seq<u8>,
    pub x25519_pk: Seq<u8>,
}

/// `Session` as mathematical values.
pub struct SessionView {
    pub keys: SessionKeysView,
    pub transcript: Seq<u8>,
    pub is_client: bool,
}

impl View for ClientHandshakeState {
    type V = ClientHandshakeStateView;

    closed spec fn view(&self) -> ClientHandshakeStateView {
        ClientHandshakeStateView {
            client_hello: self.client_hello@,
            kyber_sk: self.kyber_sk@,
            x25519_sk: self.x25519_sk@,
            x25519_pk: self.x25519_pk@,
        }
    }
}

impl View for Session {
    type V = SessionView;

    open spec fn view(&self) -> SessionView {
        SessionView { keys: self.keys@, transcript: self.transcript@, is_client: self.is_client }
    }
}

impl ClientHandshakeState {
    /// The hello that opened this handshake.
    pub fn client_hello(&self) -> (hello: &ClientHello)
        ensures
            hello@ == self@.client_hello,
    {
        &self.client_hello
    }
}

impl ClientHandshakeStateView {
    /// The state is as `generate_client_hello` leaves it: the hello carries
    /// the version, a public key of the right length and the X25519 public
    /// key of the secret key kept beside it.
    pub open spec fn coherent(self) -> bool {
        &&& self.client_hello.version == PROTOCOL_VERSION
        &&& self.client_hello.kyber_pk.len() == KYBER768_PUBLIC_KEY_SIZE
        &&& self.kyber_sk.len() == KYBER768_SECRET_KEY_SIZE
        &&& self.x25519_sk.len() == 32
        &&& self.x25519_pk == x25519_public(self.x25519_sk)
        &&& self.client_hello.x25519_pk == self.x25519_pk
    }
}

impl SessionView {
    /// Two sessions hold the same keys and the same transcript; they may
    /// belong to different sides.
    pub open spec fn agrees_with(self, other: SessionView) -> bool {
        self.keys == other.keys && self.transcript == other.transcript
    }
}

/// The session of a side that exchanged `client_hello` and `server_hello`
/// and holds the two shared secrets.
pub open spec fn spec_session(
    client_hello: ClientHelloView,
    server_hello: ServerHelloView,
    ss_pq: Seq<u8>,
    ss_classical: Seq<u8>,
    is_client: bool,
) -> SessionView {
    let transcript = spec_transcript(client_hello, server_hello);
    SessionView { keys: spec_session_keys(ss_pq, ss_classical, transcript), transcript, is_client }
}

/// The session of a responder that encapsulated `ss_pq` and answered with
/// the public key of the X25519 secret key `x25519_sk`.
pub open spec fn spec_server_session(
    client_hello: ClientHelloView,
    server_hello: ServerHelloView,
    ss_pq: Seq<u8>,
    x25519_sk: Seq<u8>,
) -> SessionView {
    spec_session(
        client_hello,
        server_hello,
        ss_pq,
        x25519_shared(x25519_sk, client_hello.x25519_pk),
        false,
    )
}

/// The session of an initiator in `state` that received `server_hello`.
pub open spec fn spec_client_session(
    state: ClientHandshakeStateView,
    server_hello: ServerHelloView,
) -> SessionView {
    spec_session(
        state.client_hello,
        server_hello,
        kyber768_decapsulated(state.kyber_sk, server_hello.kyber_ct),
        x25519_shared(state.x25519_sk, server_hello.x25519_pk),
        true,
    )
}

/// What holds of every answer of a responder to `client_hello`: the
/// ciphertext has the length of a Kyber768 ciphertext, the session is bound
/// to the transcript of the two messages, and it is that of a responder
/// with some encapsulated secret and some X25519 key pair whose public key
/// the answer carries.
pub open spec fn server_outcome(
    client_hello: ClientHelloView,
    server_hello: ServerHelloView,
    session: SessionView,
) -> bool {
    &&& server_hello.kyber_ct.len() == KYBER768_CIPHERTEXT_SIZE
    &&& !session.is_client
    &&& session.transcript == spec_transcript(client_hello, server_hello)
    &&& exists|ss_pq: Seq<u8>, x25519_sk: Seq<u8>|
        {
            &&& ss_pq.len() == KYBER768_SHARED_SECRET_SIZE
            &&& x25519_sk.len() == 32
            &&& server_hello.x25519_pk == x25519_public(x25519_sk)
            &&& session == #[trigger] spec_server_session(
                client_hello,
                server_hello,
                ss_pq,
                x25519_sk,
            )
        }
}

/// The two sides of a handshake end up with the same keys and the same
/// transcript, provided the two exchanges did their part: the initiator
/// decapsulates the secret that the responder encapsulated, and both sides
/// compute the same X25519 value from their own secret key and the other's
/// public key.
pub proof fn lemma_handshake_agreement(
    state: ClientHandshakeStateView,
    server_hello: ServerHelloView,
    ss_pq: Seq<u8>,
    server_sk: Seq<u8>,
)
    requires
        state.coherent(),
        server_hello.x25519_pk == x25519_public(server_sk),
        kyber768_decapsulated(state.kyber_sk, server_hello.kyber_ct) == ss_pq,
        x25519_shared(state.x25519_sk, server_hello.x25519_pk) == x25519_shared(
            server_sk,
            state.client_hello.x25519_pk,
        ),
    ensures
        spec_client_session(state, server_hello).agrees_with(
            spec_server_session(state.client_hello, server_hello, ss_pq, server_sk),
        ),
{
}

/// The hello and the state of an initiator that drew the given keys.
pub fn client_hello_with(
    kyber_pk: &KyberPublicKey,
    kyber_sk: KyberSecretKey,
    x25519_pk: [u8; 32],
    x25519_sk: X25519SecretKey,
) -> (out: (ClientHello, ClientHandshakeState))
    ensures
        out.0@ == (ClientHelloView {
            version: PROTOCOL_VERSION,
            kyber_pk: kyber_pk@,
            x25519_pk: x25519_pk@,
        }),
        out.1@ == (ClientHandshakeStateView {
            client_hello: out.0@,
            kyber_sk: kyber_sk@,
            x25519_sk: x25519_sk@,
            x25519_pk: x25519_pk@,
        }),
{
    let client_hello = ClientHello {
        version: PROTOCOL_VERSION,
        kyber_pk: slice_to_vec(kyber_pk.as_bytes()),
        x25519_pk,
    };
    let state = ClientHandshakeState {
        client_hello: ClientHello {
            version: PROTOCOL_VERSION,
            kyber_pk: slice_to_vec(kyber_pk.as_bytes()),
            x25519_pk,
        },
        kyber_sk,
        x25519_sk,
        x25519_pk,
    };
    (client_hello, state)
}

/// Opens a handshake: draws a Kyber768 and an X25519 key pair and returns
/// the hello that carries the public keys, with the state to finish the
/// handshake with.
pub fn generate_client_hello() -> (out: (ClientHello, ClientHandshakeState))
    ensures
        out.0.version == PROTOCOL_VERSION,
        out.0.kyber_pk@.len() == KYBER768_PUBLIC_KEY_SIZE,
        out.1@.client_hello == out.0@,
        out.1@.coherent(),
{
    let (kyber_pk, kyber_sk) = Kyber768Kem::generate_keypair();
    let (x25519_pk, x25519_sk) = X25519Kem::generate_keypair();
    proof {
        x25519_sk.lemma_len();
    }
    client_hello_with(&kyber_pk, kyber_sk, x25519_pk, x25519_sk)
}

/// The answer and the session of a responder that encapsulated `ss_pq` into
/// `kyber_ct` and drew the X25519 key pair `x25519_pk`, `x25519_sk`.
pub fn server_hello_with(
    client_hello: &ClientHello,
    kyber_ct: &KyberCiphertext,
    ss_pq: &[u8],
    x25519_pk: [u8; 32],
    x25519_sk: &X25519SecretKey,
) -> (out: (ServerHello, Session))
    ensures
        out.0@ == (ServerHelloView { kyber_ct: kyber_ct@, x25519_pk: x25519_pk@ }),
        out.1@ == spec_server_session(client_hello@, out.0@, ss_pq@, x25519_sk@),
{
    let dh = X25519Dh::diffie_hellman(x25519_sk, &client_hello.x25519_pk);
    let server_hello = ServerHello { kyber_ct: slice_to_vec(kyber_ct.as_bytes()), x25519_pk };
    let transcript = compute_transcript(client_hello, &server_hello);
    let keys = derive_session_keys(ss_pq, dh.as_slice(), &transcript);
    (server_hello, Session { keys, transcript, is_client: false })
}

/// Answers a `ClientHello`.
///
/// A version other than 1 is refused with `InvalidVersion`; otherwise a
/// Kyber768 public key of the wrong length with `InvalidKeySize`. Any other
/// hello is answered: the responder encapsulates to the Kyber768 key, draws
/// an X25519 key pair, and derives its session from both secrets and the
/// transcript.
pub fn handle_client_hello(client_hello: ClientHello) -> (result: Result<
    (ServerHello, Session),
    HandshakeError,
>)
    ensures
        client_hello.version != PROTOCOL_VERSION ==> result matches Err(
            HandshakeError::InvalidVersion,
        ),
        client_hello.version == PROTOCOL_VERSION && client_hello.kyber_pk@.len()
            != KYBER768_PUBLIC_KEY_SIZE ==> result matches Err(HandshakeError::InvalidKeySize),
        client_hello.version == PROTOCOL_VERSION && client_hello.kyber_pk@.len()
            == KYBER768_PUBLIC_KEY_SIZE ==> (result matches Ok(answer) && server_outcome(
            client_hello@,
            answer.0@,
            answer.1@,
        )),
{
    if client_hello.version != PROTOCOL_VERSION {
        return Err(HandshakeError::InvalidVersion);
    }
    if client_hello.kyber_pk.len() != KYBER768_PUBLIC_KEY_SIZE {
        return Err(HandshakeError::InvalidKeySize);
    }
    let client_kyber_pk = match KyberPublicKey::from_bytes(client_hello.kyber_pk.as_slice()) {
        Some(key) => key,
        None => {
            return Err(HandshakeError::InvalidKeySize);
        },
    };
    let (server_x25519_pk, server_x25519_sk) = X25519Kem::generate_keypair();
    let (kyber_ct, ss_pq) = Kyber768Kem::encapsulate(&client_kyber_pk);
    let answer = server_hello_with(
        &client_hello,
        &kyber_ct,
        ss_pq.as_slice(),
        server_x25519_pk,
        &server_x25519_sk,
    );
    proof {
        server_x25519_sk.lemma_len();
        assert(answer.1@ == spec_server_session(
            client_hello@,
            answer.0@,
            ss_pq@,
            server_x25519_sk@,
        ));
    }
    Ok(answer)
}

/// Finishes a handshake with the responder's answer.
///
/// A Kyber768 ciphertext of the wrong length is refused with
/// `InvalidKeySize`. Otherwise the initiator decapsulates it, combines its
/// X25519 secret key with the responder's public key, and derives its
/// session from both secrets and the transcript.
///
/// With a state as `generate_client_hello` left it, that session agrees
/// with the session of every responder that holds the secret key of the
/// X25519 public key in the answer and encapsulated the secret that the
/// initiator decapsulates.
pub fn handle_server_hello(server_hello: ServerHello, state: ClientHandshakeState) -> (result:
    Result<Session, HandshakeError>)
    ensures
        server_hello.kyber_ct@.len() != KYBER768_CIPHERTEXT_SIZE ==> result matches Err(
            HandshakeError::InvalidKeySize,
        ),
        server_hello.kyber_ct@.len() == KYBER768_CIPHERTEXT_SIZE ==> (result matches Ok(session)
            && session@ == spec_client_session(state@, server_hello@)),
        result matches Ok(session) ==> (state@.coherent() ==> forall|server_sk: Seq<u8>|
            server_sk.len() == 32 && server_hello.x25519_pk@ == #[trigger] x25519_public(
                server_sk,
            ) ==> session@.agrees_with(
                spec_server_session(
                    state@.client_hello,
                    server_hello@,
                    kyber768_decapsulated(state@.kyber_sk, server_hello.kyber_ct@),
                    server_sk,
                ),
            )),
{
    if server_hello.kyber_ct.len() != KYBER768_CIPHERTEXT_SIZE {
        return Err(HandshakeError::InvalidKeySize);
    }
    let kyber_ct = match KyberCiphertext::from_bytes(server_hello.kyber_ct.as_slice()) {
        Some(ct) => ct,
        None => {
            return Err(HandshakeError::InvalidKeySize);
        },
    };
    let ss_pq = Kyber768Kem::decapsulate(&state.kyber_sk, &kyber_ct);
    let dh = X25519Dh::diffie_hellman(&state.x25519_sk, &server_hello.x25519_pk);
    let transcript = compute_transcript(&state.client_hello, &server_hello);
    let keys = derive_session_keys(ss_pq.as_slice(), dh.as_slice(), &transcript);
    Ok(Session { keys, transcript, is_client: true })
}

} // verus!
