//! The three messages of the protocol and their wire format.
//!
//! A message is its fields in declaration order: a `u8` is one byte, a `u64`
//! a variable-length integer, a byte vector a length-prefixed byte string
//! and a 32-byte key its bytes alone. A reader ignores whatever follows the
//! last field.

use vstd::prelude::*;

use crate::bytes::{append, array_from};
use crate::protocol::wire::{
    byte_string, lemma_byte_string_roundtrip, lemma_varint_roundtrip, parse_byte_string,
    parse_varint, pow128, read_byte_string, read_varint, varint, write_byte_string, write_varint,
};

verus! {

/// Length of an X25519 public key on the wire.
pub const X25519_KEY_SIZE: usize = 32;

/// The initiator's opening message.
#[derive(Debug, Clone)]
pub struct ClientHello {
    pub version: u8,
    pub kyber_pk: Vec<u8>,
    pub x25519_pk: [u8; 32],
}

/// The responder's answer.
#[derive(Debug, Clone)]
pub struct ServerHello {
    pub kyber_ct: Vec<u8>,
    pub x25519_pk: [u8; 32],
}

/// One record of the secure channel.
#[derive(Debug, Clone)]
pub struct AppData {
    pub seq: u64,
    pub ciphertext: Vec<u8>,
}

/// Why a message could not be read.
#[derive(Debug)]
pub enum MessageError {
    InvalidFormat,
}

/// `ClientHello` as mathematical values.
pub struct ClientHelloView {
    pub version: u8,
    pub kyber_pk: Seq<u8>,
    pub x25519_pk: Seq<u8>,
}

/// `ServerHello` as mathematical values.
pub struct ServerHelloView {
    pub kyber_ct: Seq<u8>,
    pub x25519_pk: Seq<u8>,
}

/// `AppData` as mathematical values.
pub struct AppDataView {
    pub seq: u64,
    pub ciphertext: Seq<u8>,
}

impl View for ClientHello {
    type V = ClientHelloView;

    open spec fn view(&self) -> ClientHelloView {
        ClientHelloView {
            version: self.version,
            kyber_pk: self.kyber_pk@,
            x25519_pk: self.x25519_pk@,
        }
    }
}

impl View for ServerHello {
    type V = ServerHelloView;

    open spec fn view(&self) -> ServerHelloView {
        ServerHelloView { kyber_ct: self.kyber_ct@, x25519_pk: self.x25519_pk@ }
    }
}

impl View for AppData {
    type V = AppDataView;

    open spec fn view(&self) -> AppDataView {
        AppDataView { seq: self.seq, ciphertext: self.ciphertext@ }
    }
}

impl ClientHelloView {
    /// Whether an executable `ClientHello` can hold these values.
    pub open spec fn representable(self) -> bool {
        self.kyber_pk.len() <= u64::MAX && self.x25519_pk.len() == X25519_KEY_SIZE
    }

    /// The message on the wire.
    pub open spec fn encode(self) -> Seq<u8> {
        seq![self.version] + byte_string(self.kyber_pk) + self.x25519_pk
    }

    /// The message that a reader finds at the start of `s`.
    pub open spec fn parse(s: Seq<u8>) -> Option<ClientHelloView> {
        if s.len() < 1 {
            None
        } else {
            match parse_byte_string(s, 1) {
                Some((kyber_pk, end)) => if end + X25519_KEY_SIZE <= s.len() {
                    Some(
                        ClientHelloView {
                            version: s[0],
                            kyber_pk,
                            x25519_pk: s.subrange(end, end + X25519_KEY_SIZE),
                        },
                    )
                } else {
                    None
                },
                None => None,
            }
        }
    }

    /// Reading inverts writing, whatever follows the message.
    pub proof fn lemma_roundtrip(self, rest: Seq<u8>)
        requires
            self.representable(),
        ensures
            Self::parse(self.encode() + rest) == Some(self),
    {
        let s = self.encode() + rest;
        let field = byte_string(self.kyber_pk);
        assert(s.subrange(1, 1 + field.len() as int) =~= field);
        lemma_byte_string_roundtrip(s, 1, self.kyber_pk);
        let end = 1 + field.len() as int;
        assert(s.subrange(end, end + X25519_KEY_SIZE) =~= self.x25519_pk);
    }
}

impl ServerHelloView {
    /// Whether an executable `ServerHello` can hold these values.
    pub open spec fn representable(self) -> bool {
        self.kyber_ct.len() <= u64::MAX && self.x25519_pk.len() == X25519_KEY_SIZE
    }

    /// The message on the wire.
    pub open spec fn encode(self) -> Seq<u8> {
        byte_string(self.kyber_ct) + self.x25519_pk
    }

    /// The message that a reader finds at the start of `s`.
    pub open spec fn parse(s: Seq<u8>) -> Option<ServerHelloView> {
        match parse_byte_string(s, 0) {
            Some((kyber_ct, end)) => if end + X25519_KEY_SIZE <= s.len() {
                Some(
                    ServerHelloView {
                        kyber_ct,
                        x25519_pk: s.subrange(end, end + X25519_KEY_SIZE),
                    },
                )
            } else {
                None
            },
            None => None,
        }
    }

    /// Reading inverts writing, whatever follows the message.
    pub proof fn lemma_roundtrip(self, rest: Seq<u8>)
        requires
            self.representable(),
        ensures
            Self::parse(self.encode() + rest) == Some(self),
    {
        let s = self.encode() + rest;
        let field = byte_string(self.kyber_ct);
        assert(s.subrange(0, field.len() as int) =~= field);
        lemma_byte_string_roundtrip(s, 0, self.kyber_ct);
        let end = field.len() as int;
        assert(s.subrange(end, end + X25519_KEY_SIZE) =~= self.x25519_pk);
    }
}

impl AppDataView {
    /// Whether an executable `AppData` can hold these values.
    pub open spec fn representable(self) -> bool {
        self.ciphertext.len() <= u64::MAX
    }

    /// The record on the wire.
    pub open spec fn encode(self) -> Seq<u8> {
        varint(self.seq as nat) + byte_string(self.ciphertext)
    }

    /// The record that a reader finds at the start of `s`.
    pub open spec fn parse(s: Seq<u8>) -> Option<AppDataView> {
        match parse_varint(s, 0, 0) {
            Some((seq, start)) => match parse_byte_string(s, start) {
                Some((ciphertext, _)) => Some(AppDataView { seq: seq as u64, ciphertext }),
                None => None,
            },
            None => None,
        }
    }

    /// Reading inverts writing, whatever follows the record.
    pub proof fn lemma_roundtrip(self, rest: Seq<u8>)
        requires
            self.representable(),
        ensures
            Self::parse(self.encode() + rest) == Some(self),
    {
        let s = self.encode() + rest;
        let first = varint(self.seq as nat);
        let field = byte_string(self.ciphertext);
        assert(s.subrange(0, first.len() as int) =~= first);
        assert(pow128(0) == 1);
        lemma_varint_roundtrip(s, 0, self.seq as nat, 0);
        let start = first.len() as int;
        assert(s.subrange(start, start + field.len()) =~= field);
        lemma_byte_string_roundtrip(s, start, self.ciphertext);
    }
}

impl ClientHello {
    /// Writes the message. Reading the bytes gives the message back.
    pub fn to_bytes(&self) -> (bytes: Vec<u8>)
        ensures
            bytes@ == self@.encode(),
            self@.representable(),
            ClientHelloView::parse(bytes@) == Some(self@),
    {
        proof {
            assert(self.kyber_pk@.len() == self.kyber_pk.len());
            self@.lemma_roundtrip(Seq::empty());
        }
        let mut out: Vec<u8> = Vec::new();
        out.push(self.version);
        write_byte_string(&mut out, self.kyber_pk.as_slice());
        append(&mut out, self.x25519_pk.as_slice());
        out
    }

    /// Reads a message from the start of `bytes`.
    pub fn from_bytes(bytes: &[u8]) -> (result: Result<ClientHello, MessageError>)
        ensures
            result is Ok <==> ClientHelloView::parse(bytes@) is Some,
            result matches Ok(message) ==> ClientHelloView::parse(bytes@) == Some(message@),
    {
        if bytes.len() < 1 {
            return Err(MessageError::InvalidFormat);
        }
        let version = bytes[0];
        match read_byte_string(bytes, 1) {
            None => Err(MessageError::InvalidFormat),
            Some((kyber_pk, end)) => {
                if bytes.len() - end < X25519_KEY_SIZE {
                    Err(MessageError::InvalidFormat)
                } else {
                    let x25519_pk = array_from::<32>(bytes, end);
                    Ok(ClientHello { version, kyber_pk, x25519_pk })
                }
            },
        }
    }
}

impl ServerHello {
    /// Writes the message. Reading the bytes gives the message back.
    pub fn to_bytes(&self) -> (bytes: Vec<u8>)
        ensures
            bytes@ == self@.encode(),
            self@.representable(),
            ServerHelloView::parse(bytes@) == Some(self@),
    {
        proof {
            assert(self.kyber_ct@.len() == self.kyber_ct.len());
            self@.lemma_roundtrip(Seq::empty());
        }
        let mut out: Vec<u8> = Vec::new();
        write_byte_string(&mut out, self.kyber_ct.as_slice());
        append(&mut out, self.x25519_pk.as_slice());
        out
    }

    /// Reads a message from the start of `bytes`.
    pub fn from_bytes(bytes: &[u8]) -> (result: Result<ServerHello, MessageError>)
        ensures
            result is Ok <==> ServerHelloView::parse(bytes@) is Some,
            result matches Ok(message) ==> ServerHelloView::parse(bytes@) == Some(message@),
    {
        match read_byte_string(bytes, 0) {
            None => Err(MessageError::InvalidFormat),
            Some((kyber_ct, end)) => {
                if bytes.len() - end < X25519_KEY_SIZE {
                    Err(MessageError::InvalidFormat)
                } else {
                    let x25519_pk = array_from::<32>(bytes, end);
                    Ok(ServerHello { kyber_ct, x25519_pk })
                }
            },
        }
    }
}

impl AppData {
    /// Writes the record. Reading the bytes gives the record back.
    pub fn to_bytes(&self) -> (bytes: Vec<u8>)
        ensures
            bytes@ == self@.encode(),
            self@.representable(),
            AppDataView::parse(bytes@) == Some(self@),
    {
        proof {
            assert(self.ciphertext@.len() == self.ciphertext.len());
            self@.lemma_roundtrip(Seq::empty());
        }
        let mut out: Vec<u8> = Vec::new();
        write_varint(&mut out, self.seq);
        write_byte_string(&mut out, self.ciphertext.as_slice());
        out
    }

    /// Reads a record from the start of `bytes`.
    pub fn from_bytes(bytes: &[u8]) -> (result: Result<AppData, MessageError>)
        ensures
            result is Ok <==> AppDataView::parse(bytes@) is Some,
            result matches Ok(record) ==> AppDataView::parse(bytes@) == Some(record@),
    {
        match read_varint(bytes, 0) {
            None => Err(MessageError::InvalidFormat),
            Some((seq, start)) => match read_byte_string(bytes, start) {
                None => Err(MessageError::InvalidFormat),
                Some((ciphertext, _)) => Ok(AppData { seq, ciphertext }),
            },
        }
    }
}

} // verus!
