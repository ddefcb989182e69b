//! The swarm-wide coordinator of piece assignments: which pieces are still
//! wanted, which session holds which, and what has been written out.

pub mod piece_picker;
pub mod piece_picker_handle;

pub use piece_picker::PiecePicker;
pub use piece_picker_handle::{PieceHandle, PiecePickerHandle};

use crate::metainfo::PieceHash;
use crate::peers::{PieceIndex, PieceLength};
use vstd::prelude::*;

verus! {

/// What the metainfo says of one piece. Never changes once built.
#[derive(Debug, Clone, Copy, PartialEq, Eq)]
pub struct PieceInfo {
    pub piece_id: PieceIndex,
    pub hash: PieceHash,
    pub length: PieceLength,
}

/// Where a piece that is still wanted stands.
#[derive(Debug, Clone, Copy, PartialEq, Eq, Structural)]
pub enum PieceStatus {
    /// Nobody is downloading the piece.
    Pending,
    /// The session with this id holds the lease on the piece.
    InFlight(u64),
    /// The session with this id handed in the verified bytes; the sink has
    /// yet to acknowledge them.
    Submitted(u64),
}

/// A piece that is visible to sessions, and its status.
#[derive(Debug, Clone, Copy, PartialEq, Eq)]
pub struct PieceRecord {
    pub info: PieceInfo,
    pub status: PieceStatus,
}

/// A verified piece on its way to the completion sink.
#[derive(Debug, Clone, PartialEq, Eq)]
pub struct PieceDone {
    pub piece_id: PieceIndex,
    pub piece: Vec<u8>,
}

} // verus!
