//! Transport framing: every message travels behind a four-byte big-endian
//! length. This module decides what the bytes of a frame are and which
//! announced lengths a receiver accepts; moving the bytes is the caller's
//! business.

use vstd::prelude::*;

use crate::bytes::{
    append, be_bytes, be_value, lemma_be_bytes_len, lemma_be_roundtrip, pow256, u32_from_be_bytes,
    u32_to_be_bytes,
};

verus! {

/// The longest payload that a receiver accepts: 1 MiB.
pub const MAX_FRAME_SIZE: u32 = 1_048_576;

/// Why a frame could not be moved.
#[derive(Debug)]
pub enum FrameError {
    /// The transport failed; reported by whoever performs the I/O.
    Io,
    /// The length is more than a frame may carry.
    TooLarge,
}

/// A frame on the wire: the payload's length in four big-endian bytes, then
/// the payload.
pub open spec fn spec_frame(payload: Seq<u8>) -> Seq<u8> {
    be_bytes(payload.len(), 4) + payload
}

/// The prefix that announces a payload of `len` bytes, or `TooLarge` where
/// `len` does not fit the four bytes of a prefix.
pub fn frame_header(len: usize) -> (result: Result<[u8; 4], FrameError>)
    ensures
        len <= u32::MAX ==> (result matches Ok(header) && header@ == be_bytes(len as nat, 4)),
        len > u32::MAX ==> result matches Err(FrameError::TooLarge),
{
    if len > u32::MAX as usize {
        Err(FrameError::TooLarge)
    } else {
        Ok(u32_to_be_bytes(len as u32))
    }
}

/// The whole frame of a payload, or `TooLarge` where its length does not fit
/// the prefix.
pub fn encode_frame(payload: &[u8]) -> (result: Result<Vec<u8>, FrameError>)
    ensures
        payload@.len() <= u32::MAX ==> (result matches Ok(frame) && frame@ == spec_frame(
            payload@,
        )),
        payload@.len() > u32::MAX ==> result matches Err(FrameError::TooLarge),
{
    match frame_header(payload.len()) {
        Err(e) => Err(e),
        Ok(header) => {
            let mut frame: Vec<u8> = Vec::new();
            append(&mut frame, header.as_slice());
            append(&mut frame, payload);
            Ok(frame)
        },
    }
}

/// The payload length that a prefix announces, or `TooLarge` where it is
/// over `MAX_FRAME_SIZE`. A receiver calls this before it makes room for
/// the payload.
pub fn frame_length(header: &[u8; 4]) -> (result: Result<usize, FrameError>)
    ensures
        be_value(header@) <= MAX_FRAME_SIZE ==> (result matches Ok(len) && len == be_value(
            header@,
        )),
        be_value(header@) > MAX_FRAME_SIZE ==> result matches Err(FrameError::TooLarge),
{
    let len = u32_from_be_bytes(header);
    if len > MAX_FRAME_SIZE {
        Err(FrameError::TooLarge)
    } else {
        Ok(len as usize)
    }
}

/// A receiver reads back the length that the sender announced: the prefix
/// of a payload that fits four bytes denotes the payload's length.
pub proof fn lemma_frame_length_roundtrip(len: nat)
    requires
        len <= u32::MAX,
    ensures
        be_bytes(len, 4).len() == 4,
        be_value(be_bytes(len, 4)) == len,
{
    lemma_be_bytes_len(len, 4);
    lemma_be_roundtrip(len, 4);
    reveal_with_fuel(pow256, 5);
    assert(pow256(4) == 0x1_0000_0000);
}

} // verus!
