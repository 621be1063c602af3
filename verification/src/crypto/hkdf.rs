//! HKDF-SHA256 and the session key derivation: one extract-and-expand over
//! both shared secrets, salted with the handshake transcript.

use vstd::prelude::*;

use crate::bytes::{array_from, join};

verus! {

/// Domain-separation label of the session key derivation,
/// `hybrid-pq-channel-v1` in ASCII.
pub const SESSION_INFO: [u8; 20] = [
    0x68, 0x79, 0x62, 0x72, 0x69, 0x64, 0x2d, 0x70, 0x71, 0x2d,
    0x63, 0x68, 0x61, 0x6e, 0x6e, 0x65, 0x6c, 0x2d, 0x76, 0x31,
];

/// Bytes of output key material that one derivation produces.
pub const SESSION_OKM_LEN: usize = 88;

/// The most that HKDF-SHA256 can expand to: 255 blocks of 32 bytes.
pub const HKDF_MAX_OUTPUT: usize = 8160;

/// The key material of one session: a key and a nonce base per direction.
pub struct SessionKeys {
    pub k_client_to_server: [u8; 32],
    pub k_server_to_client: [u8; 32],
    pub nonce_base_c2s: [u8; 12],
    pub nonce_base_s2c: [u8; 12],
}

/// `SessionKeys` as byte strings.
pub struct SessionKeysView {
    pub k_client_to_server: Seq<u8>,
    pub k_server_to_client: Seq<u8>,
    pub nonce_base_c2s: Seq<u8>,
    pub nonce_base_s2c: Seq<u8>,
}

impl View for SessionKeys {
    type V = SessionKeysView;

    open spec fn view(&self) -> SessionKeysView {
        SessionKeysView {
            k_client_to_server: self.k_client_to_server@,
            k_server_to_client: self.k_server_to_client@,
            nonce_base_c2s: self.nonce_base_c2s@,
            nonce_base_s2c: self.nonce_base_s2c@,
        }
    }
}

/// The output key material of HKDF-SHA256 (extract, then expand to `len`
/// bytes) for a salt, input key material and info string.
pub uninterp spec fn hkdf_sha256(salt: Option<Seq<u8>>, ikm: Seq<u8>, info: Seq<u8>, len: nat) -> Seq<
    u8,
>;

/// An optional salt as an optional byte string.
pub open spec fn salt_view(salt: Option<&[u8]>) -> Option<Seq<u8>> {
    match salt {
        Some(s) => Some(s@),
        None => None,
    }
}

/// The output key material of HKDF-SHA256's expand step alone, to `len`
/// bytes, for a pseudorandom key and an info string.
pub uninterp spec fn hkdf_sha256_expanded(prk: Seq<u8>, info: Seq<u8>, len: nat) -> Seq<u8>;

/// Length of a SHA-256 digest, the least that a pseudorandom key may have.
pub const HKDF_MIN_PRK_LEN: usize = 32;

/// Calls `Hkdf::<Sha256>::from_prk` and `Hkdf::expand` of the `hkdf` crate:
/// the expand step without an extract before it. Trusted: the bytes returned
/// are that step's output for these arguments, `len` of them. Keys under 32
/// bytes, which `from_prk` refuses, and lengths over 255 hash blocks, which
/// `expand` refuses, are left out.
#[verifier::external_body]
pub(crate) fn hkdf_sha256_expand(prk: &[u8], info: &[u8], len: usize) -> (okm: Vec<u8>)
    requires
        prk@.len() >= HKDF_MIN_PRK_LEN,
        len <= HKDF_MAX_OUTPUT,
    ensures
        okm@ == hkdf_sha256_expanded(prk@, info@, len as nat),
        okm@.len() == len,
{
    let hk = ::hkdf::Hkdf::<::sha2::Sha256>::from_prk(prk).expect("valid key length");
    let mut okm = vec![0u8; len];
    hk.expand(info, &mut okm).expect("valid length");
    okm
}

/// Calls `Hkdf::<Sha256>::new` and `Hkdf::expand` of the `hkdf` crate:
/// extract, then expand. Trusted: the bytes returned are HKDF-SHA256's
/// output for these arguments, `len` of them. Lengths over 255 hash blocks,
/// which `expand` refuses, are left out.
#[verifier::external_body]
pub(crate) fn hkdf_sha256_extract_expand(salt: Option<&[u8]>, ikm: &[u8], info: &[u8], len: usize) -> (okm:
    Vec<u8>)
    requires
        len <= HKDF_MAX_OUTPUT,
    ensures
        okm@ == hkdf_sha256(salt_view(salt), ikm@, info@, len as nat),
        okm@.len() == len,
{
    let hk = ::hkdf::Hkdf::<::sha2::Sha256>::new(salt, ikm);
    let mut okm = vec![0u8; len];
    hk.expand(info, &mut okm).expect("valid length");
    okm
}

/// The session keys for two shared secrets and a transcript: the 88 bytes
/// that HKDF yields for the secrets joined (post-quantum first) under the
/// transcript as salt, cut into two 32-byte keys and two 12-byte nonce bases.
pub open spec fn spec_session_keys(ss_pq: Seq<u8>, ss_classical: Seq<u8>, transcript: Seq<u8>) -> SessionKeysView {
    let okm = hkdf_sha256(Some(transcript), ss_pq + ss_classical, SESSION_INFO@, 88);
    SessionKeysView {
        k_client_to_server: okm.subrange(0, 32),
        k_server_to_client: okm.subrange(32, 64),
        nonce_base_c2s: okm.subrange(64, 76),
        nonce_base_s2c: okm.subrange(76, 88),
    }
}

/// Derives the session keys from both shared secrets and the transcript.
pub fn derive_session_keys(ss_pq: &[u8], ss_classical: &[u8], transcript: &[u8; 32]) -> (keys:
    SessionKeys)
    ensures
        keys@ == spec_session_keys(ss_pq@, ss_classical@, transcript@),
{
    let ikm = join(ss_pq, ss_classical);
    let okm = hkdf_sha256_extract_expand(
        Some(transcript.as_slice()),
        ikm.as_slice(),
        SESSION_INFO.as_slice(),
        SESSION_OKM_LEN,
    );
    let okm = okm.as_slice();
    SessionKeys {
        k_client_to_server: array_from::<32>(okm, 0),
        k_server_to_client: array_from::<32>(okm, 32),
        nonce_base_c2s: array_from::<12>(okm, 64),
        nonce_base_s2c: array_from::<12>(okm, 76),
    }
}

/// Key derivation is a function of its three inputs: equal secrets and an
/// equal transcript give equal session keys.
pub proof fn lemma_session_keys_deterministic(
    ss_pq_a: Seq<u8>,
    ss_classical_a: Seq<u8>,
    transcript_a: Seq<u8>,
    ss_pq_b: Seq<u8>,
    ss_classical_b: Seq<u8>,
    transcript_b: Seq<u8>,
)
    requires
        ss_pq_a == ss_pq_b,
        ss_classical_a == ss_classical_b,
        transcript_a == transcript_b,
    ensures
        spec_session_keys(ss_pq_a, ss_classical_a, transcript_a) == spec_session_keys(
            ss_pq_b,
            ss_classical_b,
            transcript_b,
        ),
{
}

} // verus!
