//! The secure channel: sequence-numbered ChaCha20-Poly1305 records under the
//! keys of a session, with strict replay rejection.
//!
//! Each side counts the records it sends, from 1, and remembers the sequence
//! number of the last record it accepted. A record is accepted only if its
//! number is greater than that: there is no reordering window, so a record
//! that arrives after a later one is refused for good.

use vstd::prelude::*;

use crate::bytes::{
    append, be_bytes, lemma_be_bytes_injective, lemma_be_bytes_len, lemma_pow256_8,
    u64_to_be_bytes,
};
use crate::crypto::aead;
use crate::crypto::aead::{is_sealing_of, sealable, TAG_SIZE};
use crate::crypto::hkdf::{SessionKeys, SessionKeysView};
use crate::protocol::messages::{AppData, AppDataView};

verus! {

/// One side of an established session.
pub struct SecureChannel {
    keys: SessionKeys,
    transcript: [u8; 32],
    is_client: bool,
    send_seq: u64,
    recv_seq: u64,
}

/// Why a record was refused.
#[derive(Debug)]
pub enum ChannelError {
    DecryptionFailed,
    ReplayDetected,
    InvalidSequence,
}

/// `SecureChannel` as mathematical values.
pub struct ChannelView {
    pub keys: SessionKeysView,
    pub transcript: Seq<u8>,
    pub is_client: bool,
    pub send_seq: u64,
    pub recv_seq: u64,
}

impl View for SecureChannel {
    type V = ChannelView;

    closed spec fn view(&self) -> ChannelView {
        ChannelView {
            keys: self.keys@,
            transcript: self.transcript@,
            is_client: self.is_client,
            send_seq: self.send_seq,
            recv_seq: self.recv_seq,
        }
    }
}

/// The associated data of record `seq`: the big-endian sequence number,
/// then the transcript.
pub open spec fn spec_aad(seq: u64, transcript: Seq<u8>) -> Seq<u8> {
    be_bytes(seq as nat, 8) + transcript
}

/// The associated data names the record and the session: two records share
/// it only if they share the sequence number and, between transcripts of one
/// length, the transcript.
pub proof fn lemma_aad_unambiguous(
    seq_a: u64,
    transcript_a: Seq<u8>,
    seq_b: u64,
    transcript_b: Seq<u8>,
)
    requires
        transcript_a.len() == transcript_b.len(),
        spec_aad(seq_a, transcript_a) == spec_aad(seq_b, transcript_b),
    ensures
        seq_a == seq_b,
        transcript_a == transcript_b,
{
    let a = be_bytes(seq_a as nat, 8);
    let b = be_bytes(seq_b as nat, 8);
    lemma_be_bytes_len(seq_a as nat, 8);
    lemma_be_bytes_len(seq_b as nat, 8);
    let aad = spec_aad(seq_a, transcript_a);
    assert(aad.subrange(0, 8) =~= a);
    assert(aad.subrange(0, 8) =~= b);
    assert(aad.subrange(8, aad.len() as int) =~= transcript_a);
    assert(aad.subrange(8, aad.len() as int) =~= transcript_b);
    lemma_pow256_8();
    lemma_be_bytes_injective(seq_a as nat, seq_b as nat, 8);
}

/// Builds the associated data of record `seq`.
pub fn build_aad(seq: u64, transcript: &[u8; 32]) -> (aad: Vec<u8>)
    ensures
        aad@ == spec_aad(seq, transcript@),
{
    let mut aad: Vec<u8> = Vec::with_capacity(8 + 32);
    let seq_bytes = u64_to_be_bytes(seq);
    append(&mut aad, seq_bytes.as_slice());
    append(&mut aad, transcript.as_slice());
    aad
}

impl ChannelView {
    /// The key this side seals with: a client's records travel under the
    /// client-to-server key, a server's under the server-to-client key.
    pub open spec fn send_key(self) -> Seq<u8> {
        if self.is_client {
            self.keys.k_client_to_server
        } else {
            self.keys.k_server_to_client
        }
    }

    /// The nonce base this side seals with.
    pub open spec fn send_nonce_base(self) -> Seq<u8> {
        if self.is_client {
            self.keys.nonce_base_c2s
        } else {
            self.keys.nonce_base_s2c
        }
    }

    /// The key this side opens with: that of the other direction.
    pub open spec fn recv_key(self) -> Seq<u8> {
        if self.is_client {
            self.keys.k_server_to_client
        } else {
            self.keys.k_client_to_server
        }
    }

    /// The nonce base this side opens with.
    pub open spec fn recv_nonce_base(self) -> Seq<u8> {
        if self.is_client {
            self.keys.nonce_base_s2c
        } else {
            self.keys.nonce_base_c2s
        }
    }

    /// The two views are the two ends of one session: the same keys and
    /// transcript, held by opposite sides.
    pub open spec fn is_peer_of(self, other: ChannelView) -> bool {
        &&& self.keys == other.keys
        &&& self.transcript == other.transcript
        &&& self.is_client != other.is_client
    }

    /// The record that this side makes of `plaintext`, and the side after
    /// making it: the send counter moves on by one and numbers the record.
    pub open spec fn spec_encrypt(self, plaintext: Seq<u8>) -> (AppDataView, ChannelView) {
        let seq = (self.send_seq + 1) as u64;
        let ciphertext = aead::spec_encrypt(
            self.send_key(),
            self.send_nonce_base(),
            seq,
            spec_aad(seq, self.transcript),
            plaintext,
        );
        (AppDataView { seq, ciphertext }, ChannelView { send_seq: seq, ..self })
    }

    /// What this side makes of `record`, and the side after: a number not
    /// above the last accepted one is a replay; a record that does not open
    /// is refused; either way nothing changes. A record that opens is
    /// accepted and its number remembered.
    pub open spec fn spec_decrypt(self, record: AppDataView) -> (
        Result<Seq<u8>, ChannelError>,
        ChannelView,
    ) {
        if record.seq <= self.recv_seq {
            (Err(ChannelError::ReplayDetected), self)
        } else {
            match aead::spec_decrypt(
                self.recv_key(),
                self.recv_nonce_base(),
                record.seq,
                spec_aad(record.seq, self.transcript),
                record.ciphertext,
            ) {
                Some(plaintext) => (Ok(plaintext), ChannelView { recv_seq: record.seq, ..self }),
                None => (Err(ChannelError::DecryptionFailed), self),
            }
        }
    }

    /// `record` is what this side, as the sender, seals `plaintext` into
    /// next.
    pub open spec fn seals(self, plaintext: Seq<u8>, record: AppDataView) -> bool {
        &&& record.seq == self.send_seq + 1
        &&& is_sealing_of(
            self.send_key(),
            self.send_nonce_base(),
            record.seq,
            spec_aad(record.seq, self.transcript),
            plaintext,
            record.ciphertext,
        )
    }

    /// `record` is a sealing of `plaintext` in the direction that this side
    /// receives.
    pub open spec fn receives(self, plaintext: Seq<u8>, record: AppDataView) -> bool {
        is_sealing_of(
            self.recv_key(),
            self.recv_nonce_base(),
            record.seq,
            spec_aad(record.seq, self.transcript),
            plaintext,
            record.ciphertext,
        )
    }

    /// The two directions are kept apart, and each is shared with the peer:
    /// what one side seals, its peer receives, under the key and nonce base
    /// that the sender keeps for sending alone.
    pub proof fn lemma_peer_receives(self, peer: ChannelView, plaintext: Seq<u8>, record: AppDataView)
        requires
            self.is_peer_of(peer),
            self.seals(plaintext, record),
        ensures
            peer.receives(plaintext, record),
            peer.recv_key() == self.send_key(),
            peer.send_key() == self.recv_key(),
    {
    }

    /// A record that was accepted is refused as a replay from then on, and
    /// so is every record numbered at or below it, whatever it holds: the
    /// refusal changes nothing.
    pub proof fn lemma_replay_rejected(self, accepted: AppDataView, later: AppDataView)
        requires
            self.spec_decrypt(accepted).0 is Ok,
            later.seq <= accepted.seq,
        ensures
            self.spec_decrypt(accepted).1.spec_decrypt(later) == (
                Err::<Seq<u8>, ChannelError>(ChannelError::ReplayDetected),
                self.spec_decrypt(accepted).1,
            ),
    {
    }

    /// A refused record leaves the side as it was.
    pub proof fn lemma_refusal_changes_nothing(self, record: AppDataView)
        requires
            self.spec_decrypt(record).0 is Err,
        ensures
            self.spec_decrypt(record).1 == self,
    {
    }

    /// Accepted sequence numbers only grow: the number remembered after a
    /// record was accepted is that record's, and it is above the one
    /// remembered before.
    pub proof fn lemma_accepted_numbers_grow(self, record: AppDataView)
        requires
            self.spec_decrypt(record).0 is Ok,
        ensures
            self.spec_decrypt(record).1.recv_seq == record.seq,
            self.recv_seq < record.seq,
    {
    }
}

impl SecureChannel {
    /// The channel of one side of a session, with both counters at zero.
    pub fn new(keys: SessionKeys, transcript: [u8; 32], is_client: bool) -> (channel: SecureChannel)
        ensures
            channel@ == (ChannelView {
                keys: keys@,
                transcript: transcript@,
                is_client,
                send_seq: 0,
                recv_seq: 0,
            }),
    {
        SecureChannel { keys, transcript, is_client, send_seq: 0, recv_seq: 0 }
    }

    /// Number of records sent so far.
    pub fn send_seq(&self) -> (seq: u64)
        ensures
            seq == self@.send_seq,
    {
        self.send_seq
    }

    /// Sequence number of the last record accepted, 0 before the first.
    pub fn recv_seq(&self) -> (seq: u64)
        ensures
            seq == self@.recv_seq,
    {
        self.recv_seq
    }

    /// Seals `plaintext` into the next record of this side's direction.
    ///
    /// The send counter is advanced first, so the first record is number 1.
    /// The counter must not be exhausted, and the plaintext must fit one
    /// cipher stream.
    pub fn encrypt(&mut self, plaintext: &[u8]) -> (record: AppData)
        requires
            old(self)@.send_seq < u64::MAX,
            sealable(plaintext@.len()),
        ensures
            record@ == old(self)@.spec_encrypt(plaintext@).0,
            final(self)@ == old(self)@.spec_encrypt(plaintext@).1,
            record.seq == old(self)@.send_seq + 1,
            record.ciphertext@.len() == plaintext@.len() + TAG_SIZE,
            record.ciphertext@ == aead::spec_encrypt(
                if old(self)@.is_client {
                    old(self)@.keys.k_client_to_server
                } else {
                    old(self)@.keys.k_server_to_client
                },
                if old(self)@.is_client {
                    old(self)@.keys.nonce_base_c2s
                } else {
                    old(self)@.keys.nonce_base_s2c
                },
                record.seq,
                spec_aad(record.seq, old(self)@.transcript),
                plaintext@,
            ),
            old(self)@.seals(plaintext@, record@),
    {
        self.send_seq = self.send_seq + 1;
        let seq = self.send_seq;
        let aad = build_aad(seq, &self.transcript);
        let ciphertext = if self.is_client {
            aead::encrypt(
                &self.keys.k_client_to_server,
                &self.keys.nonce_base_c2s,
                seq,
                aad.as_slice(),
                plaintext,
            )
        } else {
            aead::encrypt(
                &self.keys.k_server_to_client,
                &self.keys.nonce_base_s2c,
                seq,
                aad.as_slice(),
                plaintext,
            )
        };
        AppData { seq, ciphertext }
    }

    /// Opens a record of the other side's direction.
    ///
    /// A sequence number at or below the last accepted one is refused with
    /// `ReplayDetected`, a record that fails authentication with
    /// `DecryptionFailed`; neither changes the channel. Otherwise the
    /// plaintext is returned and the record's number remembered.
    ///
    /// A record that the peer sealed `plaintext` into, and that is not a
    /// replay, opens to `plaintext`.
    pub fn decrypt(&mut self, app_data: &AppData) -> (result: Result<Vec<u8>, ChannelError>)
        ensures
            final(self)@ == old(self)@.spec_decrypt(app_data@).1,
            match old(self)@.spec_decrypt(app_data@).0 {
                Ok(plaintext) => result matches Ok(v) && v@ == plaintext,
                Err(e) => result matches Err(r) && r == e,
            },
            app_data.seq <= old(self)@.recv_seq ==> result matches Err(
                ChannelError::ReplayDetected,
            ),
            result matches Ok(v) ==> v@.len() + TAG_SIZE == app_data.ciphertext@.len(),
            forall|plaintext: Seq<u8>|
                app_data.seq > old(self)@.recv_seq && #[trigger] old(self)@.receives(
                    plaintext,
                    app_data@,
                ) ==> (result matches Ok(v) && v@ == plaintext),
    {
        if app_data.seq <= self.recv_seq {
            return Err(ChannelError::ReplayDetected);
        }
        let aad = build_aad(app_data.seq, &self.transcript);
        let opened = if self.is_client {
            aead::decrypt(
                &self.keys.k_server_to_client,
                &self.keys.nonce_base_s2c,
                app_data.seq,
                aad.as_slice(),
                app_data.ciphertext.as_slice(),
            )
        } else {
            aead::decrypt(
                &self.keys.k_client_to_server,
                &self.keys.nonce_base_c2s,
                app_data.seq,
                aad.as_slice(),
                app_data.ciphertext.as_slice(),
            )
        };
        match opened {
            Ok(plaintext) => {
                self.recv_seq = app_data.seq;
                Ok(plaintext)
            },
            Err(_) => Err(ChannelError::DecryptionFailed),
        }
    }

    /// The lowest sequence number that the next accepted record can have.
    pub fn next_recv_seq(&self) -> (seq: u64)
        requires
            self@.recv_seq < u64::MAX,
        ensures
            seq == self@.recv_seq + 1,
    {
        self.recv_seq + 1
    }
}

} // verus!
