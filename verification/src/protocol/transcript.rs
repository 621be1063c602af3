//! The transcript: a SHA-256 digest that binds a session to the two hello
//! messages exactly as they went over the wire.

use sha2::{Digest, Sha256};
use vstd::prelude::*;

use crate::bytes::join;
use crate::protocol::messages::{ClientHello, ClientHelloView, ServerHello, ServerHelloView};

verus! {

/// The SHA-256 digest of a byte string.
pub uninterp spec fn sha256(data: Seq<u8>) -> Seq<u8>;

/// Calls `Sha256::digest` of the `sha2` crate. Trusted: the 32 bytes
/// returned are the SHA-256 digest of `data`, a function of `data` alone.
#[verifier::external_body]
fn sha256_digest(data: &[u8]) -> (digest: [u8; 32])
    ensures
        digest@ == sha256(data@),
{
    Sha256::digest(data).into()
}

/// What the two peers hash: the client's hello as written on the wire, then
/// the server's.
pub open spec fn transcript_input(client_hello: ClientHelloView, server_hello: ServerHelloView) -> Seq<
    u8,
> {
    client_hello.encode() + server_hello.encode()
}

/// The transcript of a handshake.
pub open spec fn spec_transcript(client_hello: ClientHelloView, server_hello: ServerHelloView) -> Seq<
    u8,
> {
    sha256(transcript_input(client_hello, server_hello))
}

/// Hashes the two hello messages, as written on the wire, into the
/// transcript.
pub fn compute_transcript(client_hello: &ClientHello, server_hello: &ServerHello) -> (transcript: [u8; 32])
    ensures
        transcript@ == spec_transcript(client_hello@, server_hello@),
{
    let first = client_hello.to_bytes();
    let second = server_hello.to_bytes();
    let input = join(first.as_slice(), second.as_slice());
    sha256_digest(input.as_slice())
}

/// The transcript is a function of the two messages: equal messages give
/// equal transcripts, however often it is computed.
pub proof fn lemma_transcript_deterministic(
    client_a: ClientHelloView,
    server_a: ServerHelloView,
    client_b: ClientHelloView,
    server_b: ServerHelloView,
)
    requires
        client_a == client_b,
        server_a == server_b,
    ensures
        spec_transcript(client_a, server_a) == spec_transcript(client_b, server_b),
{
}

/// Two pairs of messages are hashed from the same bytes only if they are the
/// same messages: no field of either message can change without changing
/// what is hashed.
pub proof fn lemma_transcript_input_unambiguous(
    client_a: ClientHelloView,
    server_a: ServerHelloView,
    client_b: ClientHelloView,
    server_b: ServerHelloView,
)
    requires
        client_a.representable(),
        server_a.representable(),
        client_b.representable(),
        server_b.representable(),
        transcript_input(client_a, server_a) == transcript_input(client_b, server_b),
    ensures
        client_a == client_b,
        server_a == server_b,
{
    let input = transcript_input(client_a, server_a);
    client_a.lemma_roundtrip(server_a.encode());
    client_b.lemma_roundtrip(server_b.encode());
    let n = client_a.encode().len() as int;
    assert(input.subrange(n, input.len() as int) =~= server_a.encode());
    assert(input.subrange(n, input.len() as int) =~= server_b.encode());
    server_a.lemma_roundtrip(Seq::empty());
    server_b.lemma_roundtrip(Seq::empty());
}

} // verus!
