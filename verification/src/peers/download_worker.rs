//! A peer session from connect to close: the handshake, the first message,
//! and then the state machine of `worker_fsm`, bundled with its descriptor.

use super::comms::{PeerCommands, PieceRequestInfo};
use super::descriptor::{bitfield_fits, valid_bitfield, DescriptorView, WorkerStateDescriptor};
use super::worker_fsm::{alert_views, message_views, step};
use super::worker_fsm::{WorkerEvent, WorkerEventView, WorkerOutput, WorkerState, WorkerStateView};
use crate::error::{ProtocolError, SessionError};
use crate::peer_protocol::codec::{PeerMessage, PeerMessageView};
use crate::peer_protocol::handshake::PeerHandshake;
use crate::piece_picker::PieceHandle;
use crate::torrent::{Bitfield, InfoHash, PeerId};
use crate::tracker::peers::SocketAddress;
use vstd::prelude::*;

verus! {

/// A peer that the tracker named, not yet connected.
#[derive(Debug, Clone)]
pub struct PeerAddr {
    pub peer_addr: SocketAddress,
}

/// A peer that answered the handshake for the right torrent.
#[derive(Debug)]
pub struct PeerDownloaderConnection {
    pub peer_addr: SocketAddress,
    /// The id that the peer gave. It is not held against the tracker's word.
    pub peer_id: PeerId,
}

/// A session with one peer.
#[derive(Debug)]
pub struct PeerDownloadWorker {
    peer_addr: SocketAddress,
    descriptor: WorkerStateDescriptor,
    state: WorkerState,
}

/// The info hash in a handshake frame.
pub open spec fn reply_info_hash(reply: Seq<u8>) -> Seq<u8> {
    reply.subrange(28, 48)
}

/// The peer id in a handshake frame.
pub open spec fn reply_peer_id(reply: Seq<u8>) -> Seq<u8> {
    reply.subrange(48, 68)
}

impl PeerAddr {
    pub fn new(peer_addr: SocketAddress) -> (peer: Self)
        ensures
            peer.peer_addr == peer_addr,
    {
        Self { peer_addr }
    }

    /// The frame to send to the peer once connected.
    pub fn greeting(&self, info_hash: InfoHash, peer_id: PeerId) -> (frame: [u8; 68])
        ensures
            frame@ == crate::peer_protocol::handshake::handshake_frame(info_hash@, peer_id@),
    {
        PeerHandshake::new(info_hash, peer_id).into_bytes()
    }

    /// Judges the 68 bytes that the peer sent back. The peer is accepted
    /// exactly where it names the expected torrent; the protocol name is not
    /// held against it. The peer id it gave is kept.
    pub fn handshake(self, info_hash: &InfoHash, reply: [u8; 68]) -> (result: Result<
        PeerDownloaderConnection,
        SessionError,
    >)
        ensures
            reply_info_hash(reply@) != info_hash@ ==> result == Err::<PeerDownloaderConnection, _>(
                SessionError::HandshakeMismatch,
            ),
            reply_info_hash(reply@) == info_hash@ ==> result.is_ok() && result.unwrap().peer_addr
                == self.peer_addr && result.unwrap().peer_id@ == reply_peer_id(reply@),
    {
        let handshake = PeerHandshake::from_bytes(reply);
        assert(handshake.info_hash@ =~= reply_info_hash(reply@));
        assert(handshake.peer_id@ =~= reply_peer_id(reply@));
        if !handshake.info_hash.matches(info_hash) {
            return Err(SessionError::HandshakeMismatch);
        }
        Ok(PeerDownloaderConnection { peer_addr: self.peer_addr, peer_id: handshake.peer_id })
    }
}

/// A session as contracts speak of it.
pub struct SessionView {
    pub peer_addr: SocketAddress,
    pub state: WorkerStateView,
    pub descriptor: DescriptorView,
}

impl View for PeerDownloadWorker {
    type V = SessionView;

    closed spec fn view(&self) -> SessionView {
        SessionView {
            peer_addr: self.peer_addr,
            state: self.state@,
            descriptor: self.descriptor@,
        }
    }
}

/// What the first message after the handshake makes of a session: the
/// bitfield it brought, or the reason the session cannot begin. No message
/// means the peer closed the connection.
pub open spec fn first_message_effect(first: Option<PeerMessageView>, n_pieces: u32) -> Result<
    Seq<bool>,
    SessionError,
> {
    match first {
        None => Err(SessionError::Transport),
        Some(PeerMessageView::Bitfield(bits)) => if valid_bitfield(bits, n_pieces) {
            Ok(bits)
        } else {
            Err(SessionError::Protocol(ProtocolError::InvalidBitfield))
        },
        Some(_) => Err(SessionError::Protocol(ProtocolError::BitfieldExpected)),
    }
}

/// The first message, by its view.
pub open spec fn first_view(first: Option<PeerMessage>) -> Option<PeerMessageView> {
    match first {
        Some(message) => Some(message@),
        None => None,
    }
}

impl PeerDownloadWorker {
    /// The session's invariant.
    pub closed spec fn wf(&self) -> bool {
        self.state.wf() && self.descriptor@.wf()
    }

    /// A well-formed session shows a well-formed state and descriptor.
    pub proof fn lemma_view_wf(&self)
        requires
            self.wf(),
        ensures
            self@.state.wf(),
            self@.descriptor.wf(),
    {
        self.state.lemma_view_wf();
    }

    /// Begins a session with the first message that the peer sent after its
    /// handshake, `None` where it closed the connection instead. The message
    /// must be a bitfield that fits a torrent of `n_pieces` pieces. The
    /// session then idles, takes the peer to choke, and has declared no interest.
    pub fn init_from(
        connection: PeerDownloaderConnection,
        first_message: Option<PeerMessage>,
        n_pieces: u32,
    ) -> (result: Result<Self, SessionError>)
        ensures
            match first_message_effect(first_view(first_message), n_pieces) {
                Ok(bits) => result.is_ok() && result.unwrap().wf() && result.unwrap()@
                    == (SessionView {
                    peer_addr: connection.peer_addr,
                    state: WorkerStateView::Idle,
                    descriptor: DescriptorView::initial(connection.peer_id@, bits, n_pieces),
                }),
                Err(error) => result.is_err() && result.unwrap_err() == error,
            },
    {
        let bitfield = match first_message {
            None => {
                return Err(SessionError::Transport);
            },
            Some(PeerMessage::Bitfield(bitfield)) => bitfield,
            Some(_) => {
                return Err(SessionError::Protocol(ProtocolError::BitfieldExpected));
            },
        };
        if !bitfield_fits(&bitfield, n_pieces) {
            return Err(SessionError::Protocol(ProtocolError::InvalidBitfield));
        }
        Ok(
            Self {
                peer_addr: connection.peer_addr,
                descriptor: WorkerStateDescriptor::new(connection.peer_id, bitfield, n_pieces),
                state: WorkerState::Idle,
            },
        )
    }

    /// One step of the session at time `now`: see `step`.
    pub fn run(&mut self, event: WorkerEvent, now: u64) -> (result: Result<
        WorkerOutput,
        SessionError,
    >)
        requires
            old(self).wf(),
        ensures
            final(self).wf(),
            final(self)@.peer_addr == old(self)@.peer_addr,
            final(self)@.state == step(old(self)@.state, old(self)@.descriptor, event@, now).state,
            final(self)@.descriptor == step(
                old(self)@.state,
                old(self)@.descriptor,
                event@,
                now,
            ).descriptor,
            match result {
                Ok(output) => {
                    let outcome = step(old(self)@.state, old(self)@.descriptor, event@, now);
                    &&& outcome.error.is_none()
                    &&& message_views(output.messages@) == outcome.messages
                    &&& alert_views(output.alerts@) == outcome.alerts
                },
                Err(error) => step(old(self)@.state, old(self)@.descriptor, event@, now).error
                    == Some(error),
            },
    {
        self.state.transition(&mut self.descriptor, event, now)
    }

    /// Takes on the piece of a lease: the step for the command to download it.
    pub fn download_piece(&mut self, piece_handle: &PieceHandle, now: u64) -> (result: Result<
        WorkerOutput,
        SessionError,
    >)
        requires
            old(self).wf(),
        ensures
            final(self).wf(),
            ({
                let event = WorkerEventView::Command(
                    PeerCommands::DownloadPiece(
                        PieceRequestInfo {
                            index: piece_handle.piece_id,
                            length: piece_handle.piece_length,
                            hash: piece_handle.piece_hash,
                        },
                    ),
                );
                let outcome = step(old(self)@.state, old(self)@.descriptor, event, now);
                &&& final(self)@.state == outcome.state
                &&& final(self)@.descriptor == outcome.descriptor
                &&& match result {
                    Ok(output) => outcome.error.is_none() && message_views(output.messages@)
                        == outcome.messages && alert_views(output.alerts@) == outcome.alerts,
                    Err(error) => outcome.error == Some(error),
                }
            }),
    {
        let info = PieceRequestInfo::new(
            piece_handle.piece_id,
            piece_handle.piece_length,
            piece_handle.piece_hash,
        );
        self.run(WorkerEvent::Command(PeerCommands::DownloadPiece(info)), now)
    }

    /// Handles a message from the peer: the step for its arrival.
    pub fn handle_peer_message(&mut self, msg: PeerMessage, now: u64) -> (result: Result<
        WorkerOutput,
        SessionError,
    >)
        requires
            old(self).wf(),
        ensures
            final(self).wf(),
            ({
                let outcome = step(
                    old(self)@.state,
                    old(self)@.descriptor,
                    WorkerEventView::Message(msg@),
                    now,
                );
                &&& final(self)@.state == outcome.state
                &&& final(self)@.descriptor == outcome.descriptor
                &&& match result {
                    Ok(output) => outcome.error.is_none() && message_views(output.messages@)
                        == outcome.messages && alert_views(output.alerts@) == outcome.alerts,
                    Err(error) => outcome.error == Some(error),
                }
            }),
    {
        self.run(WorkerEvent::Message(msg), now)
    }

    /// The pieces that the peer claims to have.
    pub fn bitfield(&self) -> (bitfield: &Bitfield)
        ensures
            bitfield@ == self@.descriptor.bitfield,
    {
        &self.descriptor.bitfield
    }

    /// The address of the peer.
    pub fn peer_addr(&self) -> (peer_addr: SocketAddress)
        ensures
            peer_addr == self@.peer_addr,
    {
        self.peer_addr
    }

    /// Whether the session waits for a piece to be assigned.
    pub fn is_idle(&self) -> (idle: bool)
        ensures
            idle == (self@.state is Idle),
    {
        match self.state {
            WorkerState::Idle => true,
            _ => false,
        }
    }

    /// Whether the session is over.
    pub fn is_terminated(&self) -> (terminated: bool)
        ensures
            terminated == (self@.state is Terminated),
    {
        match self.state {
            WorkerState::Terminated => true,
            _ => false,
        }
    }

    /// Whether the peer is taken to choke this client.
    pub fn peer_is_choked(&self) -> (choked: bool)
        ensures
            choked == self@.descriptor.peer_is_choked,
    {
        self.descriptor.peer_is_choked
    }

    /// Whether this client has told the peer that it is interested.
    pub fn we_are_interested(&self) -> (interested: bool)
        ensures
            interested == self@.descriptor.we_are_interested,
    {
        self.descriptor.we_are_interested
    }
}

} // verus!
