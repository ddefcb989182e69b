//! The peer wire protocol: the handshake frame and the length-prefixed messages after it.

pub mod codec;
pub mod handshake;
