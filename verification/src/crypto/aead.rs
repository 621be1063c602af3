//! ChaCha20-Poly1305 records: the per-message nonce, sealing and opening.

use chacha20poly1305::{AeadInPlace, ChaCha20Poly1305, KeyInit, Nonce, Tag};
use vstd::prelude::*;
use vstd::slice::slice_subrange;

use crate::bytes::{
    be_bytes, lemma_be_bytes_injective, lemma_be_bytes_len, lemma_pow256_8, u64_to_be_bytes,
};

verus! {

/// Length of the Poly1305 authentication tag that ends every sealed message.
pub const TAG_SIZE: usize = 16;

/// Opening failed. The value deliberately carries no cause: a wrong key, a
/// changed byte, a wrong sequence number and a truncated input all look alike.
#[derive(Debug)]
pub struct AeadError;

/// The error of the `chacha20poly1305` crate. It says nothing of the cause,
/// and nothing is read from it.
#[verifier::external_type_specification]
#[verifier::external_body]
pub struct ExCipherError(chacha20poly1305::Error);

/// The ciphertext and the tag that ChaCha20-Poly1305 produces for a key, a
/// nonce, associated data and a plaintext.
pub uninterp spec fn chacha20poly1305_sealed(
    key: Seq<u8>,
    nonce: Seq<u8>,
    aad: Seq<u8>,
    plaintext: Seq<u8>,
) -> (Seq<u8>, Seq<u8>);

/// The plaintext that ChaCha20-Poly1305 recovers from a ciphertext and its
/// tag, or `None` where it rejects them.
pub uninterp spec fn chacha20poly1305_opened(
    key: Seq<u8>,
    nonce: Seq<u8>,
    aad: Seq<u8>,
    ciphertext: Seq<u8>,
    tag: Seq<u8>,
) -> Option<Seq<u8>>;

/// The longest message that one ChaCha20 stream covers. The cipher counts
/// 64-byte blocks in 32 bits, keeps block 0 for the authenticator's key and
/// stops before its counter would wrap: 2^32 - 2 blocks are left.
pub const MAX_MESSAGE_LEN: u64 = 0x3F_FFFF_FF80;

/// Whether a message of `len` bytes is short enough to be sealed or opened.
pub open spec fn sealable(len: nat) -> bool {
    len <= MAX_MESSAGE_LEN
}

/// Whether a message of `len` bytes is short enough to be sealed or opened.
pub fn is_sealable(len: usize) -> (fits: bool)
    ensures
        fits == sealable(len as nat),
{
    len as u64 <= MAX_MESSAGE_LEN
}

/// The nonce of message `seq`: the base with the big-endian sequence number
/// XORed into its last eight bytes.
pub open spec fn spec_nonce(nonce_base: Seq<u8>, seq: u64) -> Seq<u8> {
    Seq::new(
        12,
        |i: int|
            if i < 4 {
                nonce_base[i]
            } else {
                nonce_base[i] ^ be_bytes(seq as nat, 8)[i - 4]
            },
    )
}

/// No two sequence numbers share a nonce under one nonce base: as long as a
/// direction never reuses a sequence number, it never reuses a nonce.
pub proof fn lemma_nonce_unique(nonce_base: Seq<u8>, seq_a: u64, seq_b: u64)
    requires
        spec_nonce(nonce_base, seq_a) == spec_nonce(nonce_base, seq_b),
    ensures
        seq_a == seq_b,
{
    let a = be_bytes(seq_a as nat, 8);
    let b = be_bytes(seq_b as nat, 8);
    lemma_be_bytes_len(seq_a as nat, 8);
    lemma_be_bytes_len(seq_b as nat, 8);
    assert forall|j: int| 0 <= j < 8 implies a[j] == b[j] by {
        let base = nonce_base[j + 4];
        let x = a[j];
        let y = b[j];
        assert(spec_nonce(nonce_base, seq_a)[j + 4] == base ^ x);
        assert(spec_nonce(nonce_base, seq_b)[j + 4] == base ^ y);
        assert(base ^ x == base ^ y ==> x == y) by (bit_vector);
    }
    assert(a =~= b);
    lemma_pow256_8();
    lemma_be_bytes_injective(seq_a as nat, seq_b as nat, 8);
}

/// What `encrypt` returns: the ciphertext followed by its tag.
pub open spec fn spec_encrypt(
    key: Seq<u8>,
    nonce_base: Seq<u8>,
    seq: u64,
    aad: Seq<u8>,
    plaintext: Seq<u8>,
) -> Seq<u8> {
    let sealed = chacha20poly1305_sealed(key, spec_nonce(nonce_base, seq), aad, plaintext);
    sealed.0 + sealed.1
}

/// What `decrypt` recovers: nothing from an input shorter than a tag or
/// longer than a tag and the longest message, otherwise whatever the cipher
/// makes of the input split before its last sixteen bytes.
pub open spec fn spec_decrypt(
    key: Seq<u8>,
    nonce_base: Seq<u8>,
    seq: u64,
    aad: Seq<u8>,
    sealed: Seq<u8>,
) -> Option<Seq<u8>> {
    if sealed.len() < 16 || !sealable((sealed.len() - 16) as nat) {
        None
    } else {
        chacha20poly1305_opened(
            key,
            spec_nonce(nonce_base, seq),
            aad,
            sealed.subrange(0, sealed.len() - 16),
            sealed.subrange(sealed.len() - 16, sealed.len() as int),
        )
    }
}

/// `sealed` is the sealing of `plaintext` as message `seq`: it is sixteen
/// bytes longer than the plaintext, its last sixteen bytes are the tag and
/// the rest is the ciphertext that the cipher produces.
pub open spec fn is_sealing_of(
    key: Seq<u8>,
    nonce_base: Seq<u8>,
    seq: u64,
    aad: Seq<u8>,
    plaintext: Seq<u8>,
    sealed: Seq<u8>,
) -> bool {
    &&& sealable(plaintext.len())
    &&& sealed.len() == plaintext.len() + 16
    &&& chacha20poly1305_sealed(key, spec_nonce(nonce_base, seq), aad, plaintext) == (
        sealed.subrange(0, sealed.len() - 16),
        sealed.subrange(sealed.len() - 16, sealed.len() as int),
    )
}

/// Calls `ChaCha20Poly1305::encrypt_in_place_detached` of the
/// `chacha20poly1305` crate on a copy of the plaintext. Trusted: the pair
/// returned is the cipher's output for these arguments, and the ciphertext
/// is as long as the plaintext (the keystream is applied in place).
/// Plaintexts over `MAX_MESSAGE_LEN`, on which the crate fails or its
/// keystream runs out, are left out.
#[verifier::external_body]
fn chacha20poly1305_seal(key: &[u8; 32], nonce: &[u8; 12], aad: &[u8], plaintext: &[u8]) -> (out: (
    Vec<u8>,
    [u8; 16],
))
    requires
        sealable(plaintext@.len()),
    ensures
        (out.0@, out.1@) == chacha20poly1305_sealed(key@, nonce@, aad@, plaintext@),
        out.0@.len() == plaintext@.len(),
{
    let cipher = ChaCha20Poly1305::new_from_slice(key).expect("valid key length");
    let mut buffer = plaintext.to_vec();
    let tag = cipher.encrypt_in_place_detached(Nonce::from_slice(nonce), aad, &mut buffer).expect(
        "encryption should not fail",
    );
    (buffer, tag.into())
}

/// Calls `ChaCha20Poly1305::decrypt_in_place_detached` of the
/// `chacha20poly1305` crate on a copy of the ciphertext. Trusted: the outcome
/// is the cipher's for these arguments; a ciphertext and tag that the cipher
/// itself produced under the same key, nonce and associated data open to the
/// plaintext they were made from; and an opened plaintext is as long as the
/// ciphertext. Ciphertexts over `MAX_MESSAGE_LEN`, on which the crate fails
/// or its keystream runs out, and tags of another length than sixteen are
/// left out.
#[verifier::external_body]
fn chacha20poly1305_open(
    key: &[u8; 32],
    nonce: &[u8; 12],
    aad: &[u8],
    ciphertext: &[u8],
    tag: &[u8],
) -> (out: Result<Vec<u8>, chacha20poly1305::Error>)
    requires
        sealable(ciphertext@.len()),
        tag@.len() == 16,
    ensures
        out is Ok <==> chacha20poly1305_opened(key@, nonce@, aad@, ciphertext@, tag@) is Some,
        out matches Ok(v) ==> chacha20poly1305_opened(key@, nonce@, aad@, ciphertext@, tag@)
            == Some(v@),
        out matches Ok(v) ==> v@.len() == ciphertext@.len(),
        forall|plaintext: Seq<u8>|
            sealable(plaintext.len()) && #[trigger] chacha20poly1305_sealed(key@, nonce@, aad@, plaintext)
                == (ciphertext@, tag@) ==> out is Ok && out->Ok_0@ == plaintext,
{
    let cipher = ChaCha20Poly1305::new_from_slice(key).expect("valid key length");
    let mut buffer = ciphertext.to_vec();
    cipher.decrypt_in_place_detached(
        Nonce::from_slice(nonce),
        aad,
        &mut buffer,
        Tag::from_slice(tag),
    )?;
    Ok(buffer)
}

/// Derives the nonce of message `seq` from the direction's nonce base.
pub fn compute_nonce(nonce_base: &[u8; 12], seq: u64) -> (nonce: [u8; 12])
    ensures
        nonce@ == spec_nonce(nonce_base@, seq),
{
    let mut nonce: [u8; 12] = *nonce_base;
    let seq_bytes = u64_to_be_bytes(seq);
    proof {
        lemma_be_bytes_len(seq as nat, 8);
    }
    let mut i: usize = 0;
    while i < 8
        invariant
            i <= 8,
            seq_bytes@ == be_bytes(seq as nat, 8),
            seq_bytes@.len() == 8,
            forall|j: int| 0 <= j < 4 + i ==> nonce@[j] == spec_nonce(nonce_base@, seq)[j],
            forall|j: int| 4 + i <= j < 12 ==> nonce@[j] == nonce_base@[j],
        decreases 8 - i,
    {
        nonce[4 + i] = nonce[4 + i] ^ seq_bytes[i];
        i = i + 1;
    }
    nonce
}

/// Seals `plaintext` as message `seq` and returns the ciphertext with the
/// sixteen-byte tag appended.
pub fn encrypt(key: &[u8; 32], nonce_base: &[u8; 12], seq: u64, aad: &[u8], plaintext: &[u8]) -> (out:
    Vec<u8>)
    requires
        sealable(plaintext@.len()),
    ensures
        out@ == spec_encrypt(key@, nonce_base@, seq, aad@, plaintext@),
        out@.len() == plaintext@.len() + TAG_SIZE,
        is_sealing_of(key@, nonce_base@, seq, aad@, plaintext@, out@),
{
    let nonce = compute_nonce(nonce_base, seq);
    let (mut buffer, tag) = chacha20poly1305_seal(key, &nonce, aad, plaintext);
    let ghost ciphertext = buffer@;
    buffer.extend_from_slice(tag.as_slice());
    assert(buffer@.subrange(0, buffer@.len() - 16) =~= ciphertext);
    assert(buffer@.subrange(buffer@.len() - 16, buffer@.len() as int) =~= tag@);
    buffer
}

/// Opens message `seq`: splits the tag off the input, then authenticates and
/// decrypts the rest. An input that is shorter than a tag, or too long for
/// the cipher, is refused before the cipher sees it.
pub fn decrypt(
    key: &[u8; 32],
    nonce_base: &[u8; 12],
    seq: u64,
    aad: &[u8],
    ciphertext_with_tag: &[u8],
) -> (result: Result<Vec<u8>, AeadError>)
    ensures
        result is Ok <==> spec_decrypt(key@, nonce_base@, seq, aad@, ciphertext_with_tag@) is Some,
        result matches Ok(v) ==> spec_decrypt(key@, nonce_base@, seq, aad@, ciphertext_with_tag@)
            == Some(v@),
        ciphertext_with_tag@.len() < TAG_SIZE ==> result is Err,
        ciphertext_with_tag@.len() > MAX_MESSAGE_LEN + TAG_SIZE ==> result is Err,
        result matches Ok(v) ==> v@.len() + TAG_SIZE == ciphertext_with_tag@.len(),
        forall|plaintext: Seq<u8>|
            is_sealing_of(key@, nonce_base@, seq, aad@, plaintext, ciphertext_with_tag@) ==> (
            result matches Ok(v) && v@ == plaintext),
{
    if ciphertext_with_tag.len() < TAG_SIZE {
        return Err(AeadError);
    }
    let nonce = compute_nonce(nonce_base, seq);
    let ct_len = ciphertext_with_tag.len() - TAG_SIZE;
    if !is_sealable(ct_len) {
        return Err(AeadError);
    }
    let ciphertext = slice_subrange(ciphertext_with_tag, 0, ct_len);
    let tag = slice_subrange(ciphertext_with_tag, ct_len, ciphertext_with_tag.len());
    match chacha20poly1305_open(key, &nonce, aad, ciphertext, tag) {
        Ok(plaintext) => Ok(plaintext),
        Err(_) => Err(AeadError),
    }
}

} // verus!
