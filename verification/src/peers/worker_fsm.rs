//! The peer session as a state machine: from a state and an event to the next
//! state, the messages to send and the reports to make.
//!
//! Whoever owns the connection runs the loop: it waits for the next event
//! (shutdown, a message, a command, the picker closing, or the passing of
//! time), hands it to `WorkerState::transition`, sends what comes back and
//! acts on the reports.

use super::comms::{PeerAlerts, PeerAlertsView, PeerCommands};
use super::descriptor::{DescriptorView, WorkerStateDescriptor};
use super::progress::{drain, lemma_drain, PieceDownloadProgress, ProgressView};
use super::{BlockLength, BlockOffset, PieceIndex};
use crate::error::{ProtocolError, SessionError};
use crate::metainfo::{hash_matches, sha1_digest, PieceHash};
use crate::peer_protocol::codec::{PeerMessage, PeerMessageView};
use vstd::prelude::*;

verus! {

/// What a session is doing.
#[derive(Debug)]
pub enum WorkerState {
    /// Downloading the blocks of one piece into `piece`.
    WaitingforPiece {
        index: PieceIndex,
        download_progress: PieceDownloadProgress,
        hash: PieceHash,
        piece: Vec<u8>,
    },
    /// Waiting for a piece to be assigned.
    Idle,
    /// Over: the connection is to be closed.
    Terminated,
}

/// A session state as contracts speak of it.
pub enum WorkerStateView {
    WaitingforPiece { index: PieceIndex, download_progress: ProgressView, hash: Seq<u8>, piece: Seq<u8> },
    Idle,
    Terminated,
}

impl View for WorkerState {
    type V = WorkerStateView;

    open spec fn view(&self) -> WorkerStateView {
        match *self {
            WorkerState::WaitingforPiece {
                index,
                download_progress,
                hash,
                piece,
            } => WorkerStateView::WaitingforPiece {
                index,
                download_progress: download_progress@,
                hash: hash@,
                piece: piece@,
            },
            WorkerState::Idle => WorkerStateView::Idle,
            WorkerState::Terminated => WorkerStateView::Terminated,
        }
    }
}

/// What wakes a session.
#[derive(Debug)]
pub enum WorkerEvent {
    /// The shutdown signal was raised.
    Shutdown,
    /// The peer sent this message.
    Message(PeerMessage),
    /// The connection failed or the peer closed it.
    ConnectionClosed,
    /// A controller sent this command.
    Command(PeerCommands),
    /// The picker has nothing more to hand out.
    PickerClosed,
    /// Time has passed: requests may be due.
    Wake,
}

/// An event as contracts speak of it.
pub enum WorkerEventView {
    Shutdown,
    Message(PeerMessageView),
    ConnectionClosed,
    Command(PeerCommands),
    PickerClosed,
    Wake,
}

impl View for WorkerEvent {
    type V = WorkerEventView;

    open spec fn view(&self) -> WorkerEventView {
        match *self {
            WorkerEvent::Shutdown => WorkerEventView::Shutdown,
            WorkerEvent::Message(message) => WorkerEventView::Message(message@),
            WorkerEvent::ConnectionClosed => WorkerEventView::ConnectionClosed,
            WorkerEvent::Command(command) => WorkerEventView::Command(command),
            WorkerEvent::PickerClosed => WorkerEventView::PickerClosed,
            WorkerEvent::Wake => WorkerEventView::Wake,
        }
    }
}

/// What a session wants done after a step.
#[derive(Debug, PartialEq, Eq)]
pub struct WorkerOutput {
    /// The messages to send to the peer, in this order.
    pub messages: Vec<PeerMessage>,
    /// The reports to act on, in this order.
    pub alerts: Vec<PeerAlerts>,
}

/// The messages of a list, each by its view.
pub open spec fn message_views(messages: Seq<PeerMessage>) -> Seq<PeerMessageView> {
    messages.map_values(|message: PeerMessage| message@)
}

/// The reports of a list, each by its view.
pub open spec fn alert_views(alerts: Seq<PeerAlerts>) -> Seq<PeerAlertsView> {
    alerts.map_values(|alert: PeerAlerts| alert@)
}

/// What a step comes to.
pub struct Outcome {
    pub state: WorkerStateView,
    pub descriptor: DescriptorView,
    pub messages: Seq<PeerMessageView>,
    pub alerts: Seq<PeerAlertsView>,
    /// Why the step failed, if it did. Every failure ends the session.
    pub error: Option<SessionError>,
}

/// `buffer` with `block` written over it from `at` on.
pub open spec fn splice(buffer: Seq<u8>, at: int, block: Seq<u8>) -> Seq<u8> {
    Seq::new(
        buffer.len(),
        |i: int|
            if at <= i < at + block.len() {
                block[i - at]
            } else {
                buffer[i]
            },
    )
}

/// The requests for `blocks` of piece `index`.
pub open spec fn requests_for(index: PieceIndex, blocks: Seq<(BlockOffset, BlockLength)>) -> Seq<
    PeerMessageView,
> {
    Seq::new(
        blocks.len(),
        |k: int| PeerMessageView::Request { index, begin: blocks[k].0, length: blocks[k].1 },
    )
}

impl WorkerStateView {
    /// The state's invariant: while a piece is in flight, its pipeline is
    /// well formed and its buffer has the length of the piece.
    pub open spec fn wf(self) -> bool {
        match self {
            WorkerStateView::WaitingforPiece { download_progress, piece, .. } => {
                &&& download_progress.wf()
                &&& piece.len() == download_progress.piece_length
            },
            _ => true,
        }
    }
}

/// The step that ends the session with `error`.
pub open spec fn failed(descriptor: DescriptorView, error: SessionError) -> Outcome {
    Outcome {
        state: WorkerStateView::Terminated,
        descriptor,
        messages: Seq::empty(),
        alerts: Seq::empty(),
        error: Some(error),
    }
}

/// What a command does to the descriptor, and the message it sends.
pub open spec fn command_effect(descriptor: DescriptorView, command: PeerCommands) -> Result<
    (DescriptorView, Seq<PeerMessageView>),
    SessionError,
> {
    match command {
        PeerCommands::NotInterested => Ok(
            (
                DescriptorView { we_are_interested: false, ..descriptor },
                seq![PeerMessageView::NotInterested],
            ),
        ),
        PeerCommands::Shutdown => Err(SessionError::ShutdownSignalled),
        PeerCommands::DownloadPiece(info) => Ok(
            (
                DescriptorView {
                    download_queue: descriptor.download_queue.push(info),
                    ..descriptor
                },
                Seq::empty(),
            ),
        ),
    }
}

/// What a message from the peer does to a session that has not ended.
///
/// `CHOKE` marks the peer as choking and forgets the outstanding requests.
/// `UNCHOKE` marks it as not choking. `HAVE` sets a bit of the peer's
/// bitfield and is a violation past the last piece. `PIECE` is a violation
/// unless it brings a requested block of the piece in flight that fits the
/// piece; the block is written at its offset. Everything else is ignored,
/// a late `BITFIELD` too.
pub open spec fn message_effect(
    state: WorkerStateView,
    descriptor: DescriptorView,
    message: PeerMessageView,
) -> Result<(WorkerStateView, DescriptorView, Seq<PeerAlertsView>), ProtocolError> {
    match message {
        PeerMessageView::Choke => Ok(
            (
                match state {
                    WorkerStateView::WaitingforPiece {
                        index,
                        download_progress,
                        hash,
                        piece,
                    } => WorkerStateView::WaitingforPiece {
                        index,
                        download_progress: download_progress.reset(),
                        hash,
                        piece,
                    },
                    _ => state,
                },
                DescriptorView { peer_is_choked: true, ..descriptor },
                Seq::empty(),
            ),
        ),
        PeerMessageView::Unchoke => Ok(
            (state, DescriptorView { peer_is_choked: false, ..descriptor }, Seq::empty()),
        ),
        PeerMessageView::Have(has_piece) => if has_piece >= descriptor.n_pieces {
            Err(ProtocolError::PieceOutOfRange)
        } else {
            Ok(
                (
                    state,
                    DescriptorView {
                        bitfield: descriptor.bitfield.update(has_piece as int, true),
                        ..descriptor
                    },
                    seq![PeerAlertsView::UpdateBitfield { has_piece }],
                ),
            )
        },
        PeerMessageView::Piece { index: received, begin, piece: block } => match state {
            WorkerStateView::WaitingforPiece { index, download_progress, hash, piece } => {
                if received != index {
                    Err(ProtocolError::UnrequestedPiece)
                } else {
                    match download_progress.mark_received(begin) {
                        None => Err(ProtocolError::BlockOutOfOrder),
                        Some(marked) => if begin + block.len() > download_progress.piece_length {
                            Err(ProtocolError::BlockOverrun)
                        } else {
                            Ok(
                                (
                                    WorkerStateView::WaitingforPiece {
                                        index,
                                        download_progress: marked,
                                        hash,
                                        piece: splice(piece, begin as int, block),
                                    },
                                    descriptor,
                                    Seq::empty(),
                                ),
                            )
                        },
                    }
                }
            },
            _ => Err(ProtocolError::UnrequestedPiece),
        },
        _ => Ok((state, descriptor, Seq::empty())),
    }
}

/// The end of a download: once every block of the piece in flight has
/// arrived, the session is idle again, and reports the piece as done where the
/// buffer hashes to its digest, as failed where it does not.
pub open spec fn finish_effect(state: WorkerStateView) -> (WorkerStateView, Seq<PeerAlertsView>) {
    match state {
        WorkerStateView::WaitingforPiece { index, download_progress, hash, piece } => {
            if !download_progress.is_done() {
                (state, Seq::empty())
            } else if sha1_digest(piece) == hash {
                (
                    WorkerStateView::Idle,
                    seq![PeerAlertsView::DonePiece { piece_index: index, piece }],
                )
            } else {
                (WorkerStateView::Idle, seq![PeerAlertsView::FailedPiece { piece_index: index }])
            }
        },
        _ => (state, Seq::empty()),
    }
}

/// The start of a download: an idle session takes the oldest assignment, with
/// nothing requested and a zeroed buffer of the piece's length.
pub open spec fn start_effect(state: WorkerStateView, descriptor: DescriptorView) -> (
    WorkerStateView,
    DescriptorView,
) {
    if state is Idle && descriptor.download_queue.len() > 0 {
        let info = descriptor.download_queue[0];
        (
            WorkerStateView::WaitingforPiece {
                index: info.index,
                download_progress: ProgressView::fresh(info.length),
                hash: info.hash@,
                piece: Seq::new(info.length as nat, |i: int| 0u8),
            },
            DescriptorView {
                download_queue: descriptor.download_queue.drop_first(),
                ..descriptor
            },
        )
    } else {
        (state, descriptor)
    }
}

/// What a session sends for the piece in flight: `UNCHOKE` and `INTERESTED`
/// unless interest was declared, then, unless the peer chokes, a `REQUEST`
/// for every block that is due.
pub open spec fn request_effect(state: WorkerStateView, descriptor: DescriptorView, now: u64) -> (
    WorkerStateView,
    DescriptorView,
    Seq<PeerMessageView>,
) {
    match state {
        WorkerStateView::WaitingforPiece { index, download_progress, hash, piece } => {
            let greeting = if descriptor.we_are_interested {
                Seq::empty()
            } else {
                seq![PeerMessageView::Unchoke, PeerMessageView::Interested]
            };
            let drained = if descriptor.peer_is_choked {
                (download_progress, Seq::empty())
            } else {
                drain(download_progress, now)
            };
            (
                WorkerStateView::WaitingforPiece {
                    index,
                    download_progress: drained.0,
                    hash,
                    piece,
                },
                DescriptorView { we_are_interested: true, ..descriptor },
                greeting + requests_for(index, drained.1),
            )
        },
        _ => (state, descriptor, Seq::empty()),
    }
}

/// What follows every event that did not end the session: a finished piece
/// is reported, an idle session takes its next assignment, and the requests
/// that are due go out.
pub open spec fn settle(
    state: WorkerStateView,
    descriptor: DescriptorView,
    messages: Seq<PeerMessageView>,
    alerts: Seq<PeerAlertsView>,
    now: u64,
) -> Outcome {
    let finished = finish_effect(state);
    let started = start_effect(finished.0, descriptor);
    let requested = request_effect(started.0, started.1, now);
    Outcome {
        state: requested.0,
        descriptor: requested.1,
        messages: messages + requested.2,
        alerts: alerts + finished.1,
        error: None,
    }
}

/// One step of a session at time `now`.
///
/// Shutdown ends it from any state. A session that has ended stays so and
/// does nothing. A closed connection, a closed picker, a shutdown command
/// and a protocol violation end it, each with its error. Everything else is
/// handled and then settled.
pub open spec fn step(
    state: WorkerStateView,
    descriptor: DescriptorView,
    event: WorkerEventView,
    now: u64,
) -> Outcome {
    if event is Shutdown {
        failed(descriptor, SessionError::ShutdownSignalled)
    } else if state is Terminated {
        Outcome {
            state,
            descriptor,
            messages: Seq::empty(),
            alerts: Seq::empty(),
            error: None,
        }
    } else {
        match event {
            WorkerEventView::ConnectionClosed => failed(descriptor, SessionError::Transport),
            WorkerEventView::PickerClosed => failed(descriptor, SessionError::PickerClosed),
            WorkerEventView::Command(command) => match command_effect(descriptor, command) {
                Err(error) => failed(descriptor, error),
                Ok((commanded, messages)) => settle(
                    state,
                    commanded,
                    messages,
                    Seq::empty(),
                    now,
                ),
            },
            WorkerEventView::Message(message) => match message_effect(
                state,
                descriptor,
                message,
            ) {
                Err(error) => failed(descriptor, SessionError::Protocol(error)),
                Ok((handled, described, alerts)) => settle(
                    handled,
                    described,
                    Seq::empty(),
                    alerts,
                    now,
                ),
            },
            _ => settle(state, descriptor, Seq::empty(), Seq::empty(), now),
        }
    }
}

/// An empty list of reports.
fn no_alerts() -> (alerts: Vec<PeerAlerts>)
    ensures
        alerts@.len() == 0,
        alert_views(alerts@) == Seq::<PeerAlertsView>::empty(),
{
    let alerts: Vec<PeerAlerts> = Vec::new();
    assert(alert_views(alerts@) =~= Seq::<PeerAlertsView>::empty());
    alerts
}

/// An empty list of messages.
fn no_messages() -> (messages: Vec<PeerMessage>)
    ensures
        messages@.len() == 0,
        message_views(messages@) == Seq::<PeerMessageView>::empty(),
{
    let messages: Vec<PeerMessage> = Vec::new();
    assert(message_views(messages@) =~= Seq::<PeerMessageView>::empty());
    messages
}

/// Appends a report.
fn push_alert(alerts: &mut Vec<PeerAlerts>, alert: PeerAlerts)
    ensures
        alert_views(final(alerts)@) == alert_views(old(alerts)@).push(alert@),
{
    alerts.push(alert);
    assert(alert_views(alerts@) =~= alert_views(old(alerts)@).push(alert@));
}

/// Appends a message.
fn push_message(messages: &mut Vec<PeerMessage>, message: PeerMessage)
    ensures
        message_views(final(messages)@) == message_views(old(messages)@).push(message@),
{
    messages.push(message);
    assert(message_views(messages@) =~= message_views(old(messages)@).push(message@));
}

/// Writes `block` over `piece` from `at` on.
fn write_block(piece: &mut Vec<u8>, at: usize, block: &Vec<u8>)
    requires
        at + block.len() <= old(piece).len(),
    ensures
        final(piece)@ == splice(old(piece)@, at as int, block@),
{
    let mut i: usize = 0;
    while i < block.len()
        invariant
            i <= block.len(),
            at + block.len() <= piece.len(),
            piece.len() == old(piece).len(),
            forall|j: int| 0 <= j < at ==> piece@[j] == old(piece)@[j],
            forall|j: int| 0 <= j < i ==> piece@[at + j] == block@[j],
            forall|j: int| at + i <= j < piece.len() ==> piece@[j] == old(piece)@[j],
        decreases block.len() - i,
    {
        piece.set(at + i, block[i]);
        i += 1;
    }
    assert(piece@ =~= splice(old(piece)@, at as int, block@));
}

impl WorkerState {
    /// The state's invariant: while a piece is in flight, its pipeline is
    /// well formed and its buffer has the length of the piece.
    pub open spec fn wf(&self) -> bool {
        match self {
            WorkerState::WaitingforPiece { download_progress, piece, .. } => {
                &&& download_progress.wf()
                &&& piece@.len() == download_progress@.piece_length
            },
            _ => true,
        }
    }

    /// A well-formed state shows a well-formed view.
    pub proof fn lemma_view_wf(&self)
        requires
            self.wf(),
        ensures
            self@.wf(),
    {
        match self {
            WorkerState::WaitingforPiece { download_progress, .. } => {
                download_progress.lemma_view_wf();
            },
            _ => {},
        }
    }

    /// Handles a command from a controller: see `command_effect`. The
    /// messages that come back are to be sent to the peer.
    pub fn handle_command(command: PeerCommands, descriptor: &mut WorkerStateDescriptor) -> (result:
        Result<Vec<PeerMessage>, SessionError>)
        ensures
            match command_effect(old(descriptor)@, command) {
                Ok((commanded, messages)) => result.is_ok() && message_views(result.unwrap()@)
                    == messages && final(descriptor)@ == commanded,
                Err(error) => result == Err::<Vec<PeerMessage>, _>(error) && final(descriptor)@
                    == old(descriptor)@,
            },
    {
        match command {
            PeerCommands::NotInterested => {
                descriptor.we_are_interested = false;
                let mut messages = no_messages();
                push_message(&mut messages, PeerMessage::NotInterested);
                assert(message_views(messages@) =~= seq![PeerMessageView::NotInterested]);
                Ok(messages)
            },
            PeerCommands::Shutdown => Err(SessionError::ShutdownSignalled),
            PeerCommands::DownloadPiece(info) => {
                descriptor.download_queue.push_back(info);
                Ok(no_messages())
            },
        }
    }

    /// Handles a message from the peer: see `message_effect`. A violation
    /// ends the session and leaves the descriptor as it was.
    pub fn handle_peer_message(
        &mut self,
        msg: PeerMessage,
        descriptor: &mut WorkerStateDescriptor,
    ) -> (result: Result<Vec<PeerAlerts>, ProtocolError>)
        requires
            old(self).wf(),
            old(descriptor)@.wf(),
        ensures
            final(self).wf(),
            final(descriptor)@.wf(),
            match message_effect(old(self)@, old(descriptor)@, msg@) {
                Ok((handled, described, alerts)) => result.is_ok() && alert_views(
                    result.unwrap()@,
                ) == alerts && final(self)@ == handled && final(descriptor)@ == described,
                Err(error) => result == Err::<Vec<PeerAlerts>, _>(error) && final(self)@
                    is Terminated && final(descriptor)@ == old(descriptor)@,
            },
    {
        proof {
            self.lemma_view_wf();
        }
        match msg {
            PeerMessage::Choke => {
                descriptor.peer_is_choked = true;
                match self {
                    WorkerState::WaitingforPiece { download_progress, .. } => {
                        download_progress.reset_progress();
                    },
                    _ => {},
                }
                Ok(no_alerts())
            },
            PeerMessage::Unchoke => {
                descriptor.peer_is_choked = false;
                Ok(no_alerts())
            },
            PeerMessage::Have(has_piece) => {
                if has_piece >= descriptor.n_pieces {
                    *self = WorkerState::Terminated;
                    return Err(ProtocolError::PieceOutOfRange);
                }
                descriptor.bitfield.set(has_piece as usize, true);
                let mut alerts = no_alerts();
                push_alert(&mut alerts, PeerAlerts::UpdateBitfield { has_piece });
                assert(alert_views(alerts@) =~= seq![PeerAlertsView::UpdateBitfield { has_piece }]);
                Ok(alerts)
            },
            PeerMessage::Piece { index: received, begin, piece: block } => {
                let accepted = match self {
                    WorkerState::WaitingforPiece { index, download_progress, piece, .. } => {
                        if received != *index {
                            Err(ProtocolError::UnrequestedPiece)
                        } else {
                            match download_progress.update_downloaded(begin) {
                                Err(error) => Err(error),
                                Ok(()) => {
                                    if begin as usize > piece.len() || block.len() > piece.len()
                                        - begin as usize {
                                        Err(ProtocolError::BlockOverrun)
                                    } else {
                                        write_block(piece, begin as usize, &block);
                                        Ok(())
                                    }
                                },
                            }
                        }
                    },
                    _ => Err(ProtocolError::UnrequestedPiece),
                };
                match accepted {
                    Ok(()) => Ok(no_alerts()),
                    Err(error) => {
                        *self = WorkerState::Terminated;
                        Err(error)
                    },
                }
            },
            _ => Ok(no_alerts()),
        }
    }

    /// Reports a finished piece: see `finish_effect`.
    fn finish(&mut self, alerts: &mut Vec<PeerAlerts>)
        requires
            old(self).wf(),
        ensures
            final(self).wf(),
            final(self)@ == finish_effect(old(self)@).0,
            alert_views(final(alerts)@) == alert_views(old(alerts)@) + finish_effect(old(self)@).1,
    {
        let done = match self {
            WorkerState::WaitingforPiece { download_progress, .. } => download_progress.is_done(),
            _ => false,
        };
        if !done {
            assert(alert_views(alerts@) + Seq::<PeerAlertsView>::empty() =~= alert_views(alerts@));
            return ;
        }
        let mut current = WorkerState::Idle;
        core::mem::swap(self, &mut current);
        match current {
            WorkerState::WaitingforPiece { index, hash, piece, .. } => {
                if hash_matches(piece.as_slice(), &hash) {
                    push_alert(alerts, PeerAlerts::DonePiece { piece_index: index, piece });
                } else {
                    push_alert(alerts, PeerAlerts::FailedPiece { piece_index: index });
                }
                assert(alert_views(alerts@) =~= alert_views(old(alerts)@) + finish_effect(
                    old(self)@,
                ).1);
            },
            _ => {},
        }
    }

    /// Takes the next assignment: see `start_effect`.
    fn start(&mut self, descriptor: &mut WorkerStateDescriptor)
        requires
            old(self).wf(),
            old(descriptor)@.wf(),
        ensures
            final(self).wf(),
            final(descriptor)@.wf(),
            final(self)@ == start_effect(old(self)@, old(descriptor)@).0,
            final(descriptor)@ == start_effect(old(self)@, old(descriptor)@).1,
    {
        let idle = match self {
            WorkerState::Idle => true,
            _ => false,
        };
        if idle && descriptor.download_queue.len() > 0 {
            let info = descriptor.download_queue.pop_front().unwrap();
            let piece = vec![0u8; info.length as usize];
            assert(piece@ =~= Seq::new(info.length as nat, |i: int| 0u8));
            *self = WorkerState::WaitingforPiece {
                index: info.index,
                download_progress: PieceDownloadProgress::new(info.length),
                hash: info.hash,
                piece,
            };
        }
    }

    /// Sends what is due for the piece in flight: see `request_effect`.
    fn request(
        &mut self,
        descriptor: &mut WorkerStateDescriptor,
        messages: &mut Vec<PeerMessage>,
        now: u64,
    )
        requires
            old(self).wf(),
            old(descriptor)@.wf(),
        ensures
            final(self).wf(),
            final(descriptor)@.wf(),
            final(self)@ == request_effect(old(self)@, old(descriptor)@, now).0,
            final(descriptor)@ == request_effect(old(self)@, old(descriptor)@, now).1,
            message_views(final(messages)@) == message_views(old(messages)@) + request_effect(
                old(self)@,
                old(descriptor)@,
                now,
            ).2,
    {
        proof {
            self.lemma_view_wf();
        }
        match self {
            WorkerState::WaitingforPiece { index, download_progress, .. } => {
                let ghost before = download_progress@;
                if !descriptor.we_are_interested {
                    push_message(messages, PeerMessage::Unchoke);
                    push_message(messages, PeerMessage::Interested);
                    descriptor.we_are_interested = true;
                }
                let ghost greeted = message_views(messages@);
                assert(greeted =~= message_views(old(messages)@) + (if old(
                    descriptor,
                ).we_are_interested {
                    Seq::<PeerMessageView>::empty()
                } else {
                    seq![PeerMessageView::Unchoke, PeerMessageView::Interested]
                }));
                if !descriptor.peer_is_choked {
                    let blocks = download_progress.drain_requests(now);
                    proof {
                        lemma_drain(before, now);
                    }
                    let mut k: usize = 0;
                    while k < blocks.len()
                        invariant
                            k <= blocks.len(),
                            message_views(messages@) == greeted + requests_for(
                                *index,
                                blocks@.take(k as int),
                            ),
                        decreases blocks.len() - k,
                    {
                        let (begin, length) = blocks[k];
                        push_message(messages, PeerMessage::Request { index: *index, begin, length });
                        assert(greeted + requests_for(*index, blocks@.take(k as int)).push(
                            PeerMessageView::Request { index: *index, begin, length },
                        ) =~= greeted + requests_for(*index, blocks@.take(k + 1)));
                        k += 1;
                    }
                    assert(blocks@.take(blocks.len() as int) =~= blocks@);
                } else {
                    assert(greeted + requests_for(
                        *index,
                        Seq::<(BlockOffset, BlockLength)>::empty(),
                    ) =~= greeted);
                }
                assert(message_views(messages@) =~= message_views(old(messages)@)
                    + request_effect(old(self)@, old(descriptor)@, now).2);
            },
            _ => {
                assert(message_views(messages@) + Seq::<PeerMessageView>::empty()
                    =~= message_views(messages@));
            },
        }
    }

    /// One step of the session at time `now`: see `step`.
    ///
    /// On `Ok`, the messages are to be sent to the peer and the reports acted
    /// on. On `Err`, the session has ended and the connection is to be closed.
    pub fn transition(
        &mut self,
        descriptor: &mut WorkerStateDescriptor,
        event: WorkerEvent,
        now: u64,
    ) -> (result: Result<WorkerOutput, SessionError>)
        requires
            old(self).wf(),
            old(descriptor)@.wf(),
        ensures
            final(self).wf(),
            final(descriptor)@.wf(),
            final(self)@ == step(old(self)@, old(descriptor)@, event@, now).state,
            final(descriptor)@ == step(old(self)@, old(descriptor)@, event@, now).descriptor,
            match result {
                Ok(output) => {
                    let outcome = step(old(self)@, old(descriptor)@, event@, now);
                    &&& outcome.error.is_none()
                    &&& message_views(output.messages@) == outcome.messages
                    &&& alert_views(output.alerts@) == outcome.alerts
                },
                Err(error) => step(old(self)@, old(descriptor)@, event@, now).error == Some(
                    error,
                ),
            },
    {
        let mut messages = no_messages();
        let mut alerts = no_alerts();
        let terminated = match self {
            WorkerState::Terminated => true,
            _ => false,
        };
        match event {
            WorkerEvent::Shutdown => {
                *self = WorkerState::Terminated;
                return Err(SessionError::ShutdownSignalled);
            },
            _ => {
                if terminated {
                    return Ok(WorkerOutput { messages, alerts });
                }
            },
        }
        match event {
            WorkerEvent::ConnectionClosed => {
                *self = WorkerState::Terminated;
                return Err(SessionError::Transport);
            },
            WorkerEvent::PickerClosed => {
                *self = WorkerState::Terminated;
                return Err(SessionError::PickerClosed);
            },
            WorkerEvent::Command(command) => {
                match WorkerState::handle_command(command, descriptor) {
                    Err(error) => {
                        *self = WorkerState::Terminated;
                        return Err(error);
                    },
                    Ok(sent) => {
                        messages = sent;
                    },
                }
            },
            WorkerEvent::Message(message) => {
                match self.handle_peer_message(message, descriptor) {
                    Err(error) => {
                        return Err(SessionError::Protocol(error));
                    },
                    Ok(reported) => {
                        alerts = reported;
                    },
                }
            },
            _ => {},
        }
        let ghost handled = self@;
        let ghost described = descriptor@;
        let ghost sent = message_views(messages@);
        let ghost reported = alert_views(alerts@);
        self.finish(&mut alerts);
        self.start(descriptor);
        self.request(descriptor, &mut messages, now);
        assert(self@ == settle(handled, described, sent, reported, now).state);
        assert(message_views(messages@) == settle(handled, described, sent, reported, now).messages);
        assert(alert_views(alerts@) == settle(handled, described, sent, reported, now).alerts);
        Ok(WorkerOutput { messages, alerts })
    }
}

/// Shutdown: from any state the shutdown signal ends the session at once,
/// and a session that has ended stays so and does nothing more.
pub proof fn lemma_shutdown_terminates(
    state: WorkerStateView,
    descriptor: DescriptorView,
    event: WorkerEventView,
    now: u64,
)
    ensures
        step(state, descriptor, WorkerEventView::Shutdown, now).state is Terminated,
        step(state, descriptor, WorkerEventView::Shutdown, now).error == Some(
            SessionError::ShutdownSignalled,
        ),
        state is Terminated ==> step(state, descriptor, event, now).state is Terminated,
        state is Terminated ==> step(state, descriptor, event, now).messages.len() == 0,
        state is Terminated ==> step(state, descriptor, event, now).alerts.len() == 0,
{
}

/// Every failure ends the session: nothing is sent, nothing is reported, and
/// the descriptor is as it was.
pub proof fn lemma_failure_terminates(
    state: WorkerStateView,
    descriptor: DescriptorView,
    event: WorkerEventView,
    now: u64,
)
    requires
        step(state, descriptor, event, now).error is Some,
    ensures
        step(state, descriptor, event, now).state is Terminated,
        step(state, descriptor, event, now).messages.len() == 0,
        step(state, descriptor, event, now).alerts.len() == 0,
        step(state, descriptor, event, now).descriptor == descriptor,
{
}

/// Every step keeps the invariants of the state and of the descriptor; so the
/// pipeline of the piece in flight never holds more requests than it may.
pub proof fn lemma_step_keeps_wf(
    state: WorkerStateView,
    descriptor: DescriptorView,
    event: WorkerEventView,
    now: u64,
)
    requires
        state.wf(),
        descriptor.wf(),
    ensures
        step(state, descriptor, event, now).state.wf(),
        step(state, descriptor, event, now).descriptor.wf(),
{
    let outcome = step(state, descriptor, event, now);
    if !(event is Shutdown) && !(state is Terminated) && outcome.error is None {
        let handled: (WorkerStateView, DescriptorView) = match event {
            WorkerEventView::Command(command) => (
                state,
                command_effect(descriptor, command)->Ok_0.0,
            ),
            WorkerEventView::Message(message) => {
                let effect = message_effect(state, descriptor, message)->Ok_0;
                (effect.0, effect.1)
            },
            _ => (state, descriptor),
        };
        if let WorkerEventView::Message(message) = event {
            if let WorkerStateView::WaitingforPiece { download_progress, .. } = state {
                download_progress.lemma_steps_keep_wf(now, 0);
                if let PeerMessageView::Piece { begin, .. } = message {
                    download_progress.lemma_steps_keep_wf(now, begin);
                }
            }
        }
        assert(handled.0.wf());
        assert(handled.1.wf());
        let finished = finish_effect(handled.0);
        let started = start_effect(finished.0, handled.1);
        if let WorkerStateView::WaitingforPiece { download_progress, .. } = started.0 {
            lemma_drain(download_progress, now);
        }
    }
}

/// Hash verification: a piece is reported done only if its bytes hash to
/// the digest it was assigned with; so bytes that hash to anything else are
/// never handed in.
pub proof fn lemma_done_piece_is_verified(
    state: WorkerStateView,
    descriptor: DescriptorView,
    event: WorkerEventView,
    now: u64,
    k: int,
)
    requires
        0 <= k < step(state, descriptor, event, now).alerts.len(),
        step(state, descriptor, event, now).alerts[k] is DonePiece,
    ensures
        state is WaitingforPiece,
        step(state, descriptor, event, now).alerts[k]->DonePiece_piece_index
            == state->WaitingforPiece_index,
        sha1_digest(step(state, descriptor, event, now).alerts[k]->DonePiece_piece)
            == state->WaitingforPiece_hash,
{
}

} // verus!
