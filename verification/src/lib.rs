//! A BitTorrent v1 leech engine: wire codec, handshake, per-piece download
//! progress, the peer session state machine and the swarm-wide piece picker.

pub mod cli;
pub mod error;
pub mod metainfo;
pub mod peer_protocol;
pub mod peers;
pub mod piece_picker;
pub mod torrent;
pub mod tracker;
