//! The part of a session that does not depend on what it is downloading.

use super::comms::PieceRequestInfo;
use crate::torrent::{Bitfield, PeerId};
use std::collections::VecDeque;
use vstd::prelude::*;

verus! {

/// What a session knows of its peer and of its own standing with it.
#[derive(Debug)]
pub struct WorkerStateDescriptor {
    /// The id that the peer gave in its handshake. Kept for logging only.
    pub peer_id: PeerId,
    /// The pieces that the peer claims to have.
    pub bitfield: Bitfield,
    /// The number of pieces in the torrent.
    pub n_pieces: u32,
    /// The pieces assigned to this session that it has not begun.
    pub download_queue: VecDeque<PieceRequestInfo>,
    /// Whether the peer is taken to choke this client.
    pub peer_is_choked: bool,
    /// Whether this client has told the peer that it is interested.
    pub we_are_interested: bool,
}

/// A descriptor as contracts speak of it.
pub struct DescriptorView {
    pub peer_id: Seq<u8>,
    pub bitfield: Seq<bool>,
    pub n_pieces: u32,
    pub download_queue: Seq<PieceRequestInfo>,
    pub peer_is_choked: bool,
    pub we_are_interested: bool,
}

impl View for WorkerStateDescriptor {
    type V = DescriptorView;

    open spec fn view(&self) -> DescriptorView {
        DescriptorView {
            peer_id: self.peer_id@,
            bitfield: self.bitfield@,
            n_pieces: self.n_pieces,
            download_queue: self.download_queue@,
            peer_is_choked: self.peer_is_choked,
            we_are_interested: self.we_are_interested,
        }
    }
}

/// Whether `bits` can be the bitfield of a peer in a torrent of `n_pieces`
/// pieces: a bit for every piece, and no bit set past the last piece.
pub open spec fn valid_bitfield(bits: Seq<bool>, n_pieces: u32) -> bool {
    &&& bits.len() >= n_pieces
    &&& forall|j: int| n_pieces <= j < bits.len() ==> !bits[j]
}

impl DescriptorView {
    /// The descriptor's invariant: its bitfield fits the torrent.
    pub open spec fn wf(self) -> bool {
        valid_bitfield(self.bitfield, self.n_pieces)
    }

    /// The descriptor of a session that has just read the peer's bitfield:
    /// the peer is taken to choke, and no interest has been declared.
    pub open spec fn initial(peer_id: Seq<u8>, bitfield: Seq<bool>, n_pieces: u32) -> DescriptorView {
        DescriptorView {
            peer_id,
            bitfield,
            n_pieces,
            download_queue: Seq::empty(),
            peer_is_choked: true,
            we_are_interested: false,
        }
    }
}

/// Whether a bitfield can be that of a peer in a torrent of `n_pieces` pieces.
pub fn bitfield_fits(bitfield: &Bitfield, n_pieces: u32) -> (fits: bool)
    ensures
        fits == valid_bitfield(bitfield@, n_pieces),
{
    bitfield.len() >= n_pieces as usize && bitfield.clear_from(n_pieces as usize)
}

impl WorkerStateDescriptor {
    /// The descriptor of a session that has just read the peer's bitfield.
    pub fn new(peer_id: PeerId, bitfield: Bitfield, n_pieces: u32) -> (descriptor: Self)
        ensures
            descriptor@ == DescriptorView::initial(peer_id@, bitfield@, n_pieces),
    {
        Self {
            peer_id,
            bitfield,
            n_pieces,
            download_queue: VecDeque::new(),
            peer_is_choked: true,
            we_are_interested: false,
        }
    }
}

} // verus!
