//! The protocol proper: the wire format of its messages, the transcript
//! hash, the handshake and the record channel that it sets up.

pub mod wire;
pub mod messages;
pub mod transcript;
pub mod handshake;
pub mod session;
pub mod framing;
