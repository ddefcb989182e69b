//! The per-peer side of a download: block pipelining and the session state machine.

pub mod comms;
pub mod descriptor;
pub mod download_worker;
pub mod progress;
pub mod worker_fsm;

pub use comms::{PeerAlerts, PeerCommands, PieceRequestInfo};

use vstd::prelude::*;

verus! {

/// The index of a piece within the torrent.
pub type PieceIndex = u32;

/// The length of a piece in bytes.
pub type PieceLength = u32;

/// The length of a block in bytes.
pub type BlockLength = u32;

/// The offset of a block within its piece.
pub type BlockOffset = u32;

} // verus!
