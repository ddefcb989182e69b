//! The ways a peer session can fail, and which of them end it.

use vstd::prelude::*;

verus! {

/// A violation of the peer wire protocol. Each ends the session that sees it.
#[derive(Debug, Clone, Copy, PartialEq, Eq, Structural)]
pub enum ProtocolError {
    /// A frame announced more payload than the codec accepts.
    FrameTooLarge,
    /// The payload began with a tag that names no message.
    UnknownTag,
    /// The payload was shorter than the fixed part its tag calls for.
    PayloadTooShort,
    /// The first message after the handshake was not a bitfield.
    BitfieldExpected,
    /// The bitfield was shorter than the torrent, or set a bit past its last piece.
    InvalidBitfield,
    /// A `HAVE` named a piece the torrent does not have.
    PieceOutOfRange,
    /// A block arrived for a piece other than the one being downloaded.
    UnrequestedPiece,
    /// A block arrived that was not in the request pipeline.
    BlockOutOfOrder,
    /// A block would reach past the end of its piece.
    BlockOverrun,
}

/// Why a session step failed.
#[derive(Debug, Clone, Copy, PartialEq, Eq, Structural)]
pub enum SessionError {
    /// Connecting, reading or writing failed, or the peer closed the connection.
    Transport,
    /// The peer broke the wire protocol.
    Protocol(ProtocolError),
    /// The peer answered the handshake for another torrent.
    HandshakeMismatch,
    /// An assembled piece did not hash to its expected digest.
    HashMismatch,
    /// The picker has handed out and collected every piece.
    PickerClosed,
    /// The shutdown signal was raised.
    ShutdownSignalled,
}

impl SessionError {
    /// Whether the session goes on after this error: only a failed hash
    /// check leaves it alive, back in the idle state.
    pub fn is_recoverable(&self) -> (recoverable: bool)
        ensures
            recoverable == (*self == SessionError::HashMismatch),
    {
        match self {
            SessionError::HashMismatch => true,
            _ => false,
        }
    }

    /// Whether the session ended without a fault: on shutdown, or because
    /// nothing is left to download.
    pub fn is_clean_exit(&self) -> (clean: bool)
        ensures
            clean == (*self == SessionError::PickerClosed || *self
                == SessionError::ShutdownSignalled),
    {
        match self {
            SessionError::PickerClosed => true,
            SessionError::ShutdownSignalled => true,
            _ => false,
        }
    }
}

/// Why talking to the tracker, or reading what it said, failed.
#[derive(Debug, Clone, PartialEq, Eq)]
pub enum TrackerError {
    /// The compact peer list was not a whole number of entries.
    MalformedPeers,
    /// The tracker answered with a failure, for this reason.
    Failure(String),
    /// The announce URL could not be parsed.
    InvalidUrl,
    /// The announce URL has a scheme other than `http` and `udp`.
    UnsupportedScheme(String),
    /// A UDP packet was shorter than its fixed layout.
    ShortPacket,
}

/// Why a metainfo file was refused.
#[derive(Debug, Clone, Copy, PartialEq, Eq, Structural)]
pub enum MetainfoError {
    /// The piece hashes were not a whole number of 20-byte digests.
    MalformedHashes,
    /// The path does not name a file.
    NotAFile,
    /// The file name does not end in `.torrent`.
    NotATorrent,
    /// The content length, the piece length and the number of piece hashes
    /// do not go together.
    InconsistentLengths,
}

} // verus!
