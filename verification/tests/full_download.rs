use bt_leech::error::SessionError;
use bt_leech::peer_protocol::codec::{PeerMessage, PeerMessageCodec};
use bt_leech::peers::download_worker::{PeerAddr, PeerDownloadWorker};
use bt_leech::peers::worker_fsm::{WorkerEvent, WorkerOutput};
use bt_leech::peers::PeerAlerts;
use bt_leech::piece_picker::piece_picker::{PickerEvent, PickerStatus};
use bt_leech::piece_picker::piece_picker_handle::NextPiece;
use bt_leech::piece_picker::{PieceHandle, PieceInfo, PiecePicker, PiecePickerHandle, PieceStatus};
use bt_leech::torrent::{Bitfield, InfoHash, PeerId};
use bt_leech::tracker::peers::SocketAddress;
use sha1_smol::Sha1;

const PIECE_LENGTH: usize = 32 * 1024;
const LAST_LENGTH: usize = 10 * 1024;

fn torrent() -> Vec<Vec<u8>> {
    let byte = |piece: usize, i: usize| ((i * 7 + piece * 13) % 256) as u8;
    vec![
        (0..PIECE_LENGTH).map(|i| byte(0, i)).collect(),
        (0..PIECE_LENGTH).map(|i| byte(1, i)).collect(),
        (0..LAST_LENGTH).map(|i| byte(2, i)).collect(),
    ]
}

fn infos(pieces: &[Vec<u8>]) -> Vec<PieceInfo> {
    pieces
        .iter()
        .enumerate()
        .map(|(piece_id, piece)| PieceInfo {
            piece_id: piece_id as u32,
            hash: Sha1::from(piece).digest().bytes(),
            length: piece.len() as u32,
        })
        .collect()
}

/// A peer that has some pieces and answers every request for them, over the wire format.
struct MockPeer {
    pieces: Vec<Option<Vec<u8>>>,
    codec: PeerMessageCodec,
    /// what the peer has written and the session has not read
    outbox: Vec<u8>,
    /// whether the peer corrupts the blocks it serves
    lies: bool,
}

impl MockPeer {
    fn new(all: &[Vec<u8>], owned: &[usize]) -> Self {
        let pieces = all
            .iter()
            .enumerate()
            .map(|(i, piece)| if owned.contains(&i) { Some(piece.clone()) } else { None })
            .collect();
        MockPeer { pieces, codec: PeerMessageCodec::new(), outbox: Vec::new(), lies: false }
    }

    fn bitfield(&self) -> Bitfield {
        let mut bits = Bitfield::repeat(false, 8);
        for (i, piece) in self.pieces.iter().enumerate() {
            bits.set(i, piece.is_some());
        }
        bits
    }

    fn say(&mut self, message: PeerMessage) {
        self.codec.encode(message, &mut self.outbox).unwrap();
    }

    /// Reads what the session wrote and answers it.
    fn hear(&mut self, wire: &mut Vec<u8>) {
        while let Some(message) = self.codec.decode(wire).unwrap() {
            match message {
                PeerMessage::Interested => self.say(PeerMessage::Unchoke),
                PeerMessage::Request { index, begin, length } => {
                    let piece = self.pieces[index as usize].as_ref().expect("asked for a piece the peer lacks");
                    let mut block = piece[begin as usize..(begin + length) as usize].to_vec();
                    if self.lies {
                        block[0] ^= 0x55;
                    }
                    // a keepalive now and then must not disturb the session
                    self.outbox.extend([0, 0, 0, 0]);
                    self.say(PeerMessage::Piece { index, begin, piece: block });
                }
                _ => {}
            }
        }
        assert!(wire.is_empty());
    }
}

struct Side {
    session: PeerDownloadWorker,
    handle: PiecePickerHandle,
    peer: MockPeer,
    codec: PeerMessageCodec,
    lease: Option<PieceHandle>,
    result: Option<SessionError>,
}

fn connect(peer: MockPeer, session_id: u64, n_pieces: u32) -> Side {
    let info_hash = InfoHash::new([0xab; 20]);
    let address = SocketAddress { ip: [127, 0, 0, 1], port: 7000 + session_id as u16 };
    let addr = PeerAddr::new(address);
    let _sent = addr.greeting(info_hash.clone(), PeerId::with_suffix(b"AAAAAAAAAAAA"));
    let reply = PeerAddr::new(address).greeting(info_hash.clone(), PeerId::with_suffix(b"BBBBBBBBBBBB"));
    let connection = addr.handshake(&info_hash, reply).unwrap();
    let first = PeerMessage::Bitfield(peer.bitfield());
    let session = PeerDownloadWorker::init_from(connection, Some(first), n_pieces).unwrap();
    Side {
        session,
        handle: PiecePickerHandle::new(session_id),
        peer,
        codec: PeerMessageCodec::new(),
        lease: None,
        result: None,
    }
}

/// Carries out what a step asked for: sends the messages to the peer, hands finished pieces
/// to the picker and the sink, and drops the lease of a failed one.
fn act(side: &mut Side, output: WorkerOutput, picker: &mut PiecePicker, sink: &mut Vec<(u32, Vec<u8>)>) {
    let mut wire = Vec::new();
    for message in output.messages {
        side.codec.encode(message, &mut wire).unwrap();
    }
    side.peer.hear(&mut wire);
    for alert in output.alerts {
        match alert {
            PeerAlerts::DonePiece { piece_index, piece } => {
                let lease = side.lease.take().unwrap();
                assert_eq!(lease.piece_id, piece_index);
                let done = lease.submit(picker, piece).unwrap();
                sink.push((done.piece_id, done.piece));
                picker.run(PickerEvent::PieceWritten(done.piece_id));
            }
            PeerAlerts::FailedPiece { piece_index } => {
                let lease = side.lease.take().unwrap();
                assert_eq!(lease.piece_id, piece_index);
                lease.release(picker);
            }
            PeerAlerts::UpdateBitfield { .. } => {}
        }
    }
}

/// One turn of a session's loop. Returns whether anything happened.
fn turn(side: &mut Side, picker: &mut PiecePicker, sink: &mut Vec<(u32, Vec<u8>)>, now: u64) -> bool {
    if side.session.is_terminated() {
        return false;
    }
    if side.session.is_idle() {
        match side.handle.next_piece(picker, side.session.bitfield()) {
            NextPiece::Assigned(lease) => {
                let output = side.session.download_piece(&lease, now).unwrap();
                side.lease = Some(lease);
                act(side, output, picker, sink);
                return true;
            }
            NextPiece::Wait => return false,
            NextPiece::Closed => {
                side.result = side.session.run(WorkerEvent::PickerClosed, now).err();
                return true;
            }
        }
    }
    loop {
        let unread = side.peer.outbox.len();
        match side.codec.decode(&mut side.peer.outbox).unwrap() {
            Some(message) => {
                let output = side.session.handle_peer_message(message, now).unwrap();
                act(side, output, picker, sink);
                return true;
            }
            // nothing surfaced: either a keepalive was dropped, or more bytes are needed
            None => {
                if side.peer.outbox.len() == unread {
                    return false;
                }
            }
        }
    }
}

#[test]
fn full_download() {
    let pieces = torrent();
    let mut picker = PiecePicker::new(infos(&pieces));
    let mut sides = vec![
        connect(MockPeer::new(&pieces, &[0, 2]), 1, 3),
        connect(MockPeer::new(&pieces, &[1]), 2, 3),
    ];
    let mut sink: Vec<(u32, Vec<u8>)> = Vec::new();
    let mut now = 0;
    let mut quiet = 0;
    while quiet < 8 {
        now += 1;
        let mut happened = false;
        for side in sides.iter_mut() {
            happened |= turn(side, &mut picker, &mut sink, now);
        }
        quiet = if happened { 0 } else { quiet + 1 };
        assert!(now < 10_000);
    }

    assert_eq!(sink.len(), 3);
    sink.sort();
    for (piece_id, bytes) in sink.iter() {
        assert_eq!(bytes, &pieces[*piece_id as usize]);
    }
    assert_eq!(sink.iter().map(|(piece_id, _)| *piece_id).collect::<Vec<u32>>(), vec![0, 1, 2]);
    assert_eq!(picker.status(), PickerStatus::Finished);
    assert_eq!(picker.n_received(), 3);
    for side in sides.iter() {
        assert!(side.session.is_terminated());
        assert_eq!(side.result, Some(SessionError::PickerClosed));
        assert!(side.result.unwrap().is_clean_exit());
    }
}

#[test]
fn piece_from_a_lying_peer_goes_to_another_session() {
    let pieces = torrent();
    let mut picker = PiecePicker::new(infos(&pieces));
    let mut liar = connect(MockPeer::new(&pieces, &[0]), 1, 3);
    liar.peer.lies = true;
    let mut honest = connect(MockPeer::new(&pieces, &[0, 1, 2]), 2, 3);
    let mut sink: Vec<(u32, Vec<u8>)> = Vec::new();

    // the liar is first to take piece 0, and delivers all of its blocks
    assert!(turn(&mut liar, &mut picker, &mut sink, 1));
    assert_eq!(picker.status_of(0), Some(PieceStatus::InFlight(1)));
    let mut now = 1;
    while !liar.session.is_idle() {
        now += 1;
        assert!(turn(&mut liar, &mut picker, &mut sink, now));
    }
    // the hash did not match: nothing reached the sink, and the piece is pending again
    assert!(sink.is_empty());
    assert_eq!(picker.n_received(), 0);
    assert_eq!(picker.status_of(0), Some(PieceStatus::Pending));
    assert!(!liar.session.is_terminated());

    // the honest session takes it and everything else
    let mut quiet = 0;
    while quiet < 4 {
        now += 1;
        quiet = if turn(&mut honest, &mut picker, &mut sink, now) { 0 } else { quiet + 1 };
        assert!(now < 10_000);
    }
    sink.sort();
    assert_eq!(sink.iter().map(|(piece_id, _)| *piece_id).collect::<Vec<u32>>(), vec![0, 1, 2]);
    assert_eq!(sink[0].1, pieces[0]);
    assert_eq!(picker.status(), PickerStatus::Finished);
}

#[test]
fn shutdown_stops_sessions_and_picker() {
    let pieces = torrent();
    let mut picker = PiecePicker::new(infos(&pieces));
    let mut side = connect(MockPeer::new(&pieces, &[0, 1, 2]), 1, 3);
    let mut sink: Vec<(u32, Vec<u8>)> = Vec::new();
    for now in 1..4 {
        turn(&mut side, &mut picker, &mut sink, now);
    }
    assert!(!side.session.is_idle());
    assert_eq!(picker.run(PickerEvent::Shutdown), PickerStatus::Stopped);
    assert_eq!(side.session.run(WorkerEvent::Shutdown, 5), Err(SessionError::ShutdownSignalled));
    assert!(side.session.is_terminated());
    side.lease.take().unwrap().release(&mut picker);
    assert_eq!(picker.status_of(0), Some(PieceStatus::Pending));
    assert_eq!(side.handle.next_piece(&mut picker, side.session.bitfield()), NextPiece::Closed);
    assert!(!turn(&mut side, &mut picker, &mut sink, 6));
}
