//! What travels between a session and the rest of the client.

use super::{PieceIndex, PieceLength};
use crate::metainfo::PieceHash;
use vstd::prelude::*;

verus! {

/// The assignment of a piece: which one, how long, and what it must hash to.
#[derive(Debug, Clone, Copy, PartialEq, Eq)]
pub struct PieceRequestInfo {
    pub index: PieceIndex,
    pub length: u32,
    pub hash: PieceHash,
}

impl PieceRequestInfo {
    pub fn new(index: PieceIndex, length: PieceLength, hash: PieceHash) -> (info: Self)
        ensures
            info == (PieceRequestInfo { index, length, hash }),
    {
        Self { index, length, hash }
    }
}

/// What a controller can tell a session to do.
#[derive(Debug, Clone, Copy, PartialEq, Eq)]
pub enum PeerCommands {
    /// Tell the peer that nothing of it is wanted any more.
    NotInterested,
    /// Download this piece, after those already assigned.
    DownloadPiece(PieceRequestInfo),
    /// End the session.
    Shutdown,
}

/// What a session reports.
#[derive(Debug, Clone, PartialEq, Eq)]
pub enum PeerAlerts {
    /// The peer announced that it has this piece.
    UpdateBitfield { has_piece: PieceIndex },
    /// This piece was downloaded and hashes to its digest: hand it in.
    DonePiece { piece_index: PieceIndex, piece: Vec<u8> },
    /// This piece was downloaded and does not hash to its digest: drop its lease.
    FailedPiece { piece_index: PieceIndex },
}

/// A report, with the bytes of a piece as a sequence.
pub enum PeerAlertsView {
    UpdateBitfield { has_piece: PieceIndex },
    DonePiece { piece_index: PieceIndex, piece: Seq<u8> },
    FailedPiece { piece_index: PieceIndex },
}

impl View for PeerAlerts {
    type V = PeerAlertsView;

    open spec fn view(&self) -> PeerAlertsView {
        match *self {
            PeerAlerts::UpdateBitfield { has_piece } => PeerAlertsView::UpdateBitfield {
                has_piece,
            },
            PeerAlerts::DonePiece { piece_index, piece } => PeerAlertsView::DonePiece {
                piece_index,
                piece: piece@,
            },
            PeerAlerts::FailedPiece { piece_index } => PeerAlertsView::FailedPiece {
                piece_index,
            },
        }
    }
}

} // verus!
