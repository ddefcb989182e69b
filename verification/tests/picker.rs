use bt_leech::error::SessionError;
use bt_leech::piece_picker::piece_picker::{PickerEvent, PickerStatus, MAX_QUEUED};
use bt_leech::piece_picker::piece_picker_handle::NextPiece;
use bt_leech::piece_picker::{PieceDone, PieceInfo, PiecePicker, PiecePickerHandle, PieceStatus};
use bt_leech::torrent::Bitfield;
use sha1_smol::Sha1;

fn content(piece_id: u32, length: u32) -> Vec<u8> {
    (0..length).map(|i| (i as u8).wrapping_mul(3).wrapping_add(piece_id as u8)).collect()
}

fn infos(count: u32, length: u32) -> Vec<PieceInfo> {
    (0..count)
        .map(|piece_id| PieceInfo {
            piece_id,
            hash: Sha1::from(content(piece_id, length)).digest().bytes(),
            length,
        })
        .collect()
}

fn has_all(count: usize) -> Bitfield {
    Bitfield::repeat(true, count)
}

fn has_only(count: usize, pieces: &[usize]) -> Bitfield {
    let mut bits = Bitfield::repeat(false, count);
    for &piece in pieces {
        bits.set(piece, true);
    }
    bits
}

fn lease(next: NextPiece) -> bt_leech::piece_picker::PieceHandle {
    match next {
        NextPiece::Assigned(handle) => handle,
        other => panic!("no piece was assigned: {:?}", other),
    }
}

#[test]
fn list_with_ids_out_of_place_is_not_accepted() {
    let mut list = infos(3, 10);
    assert!(PiecePicker::accepts(&list));
    assert!(PiecePicker::accepts(&Vec::new()));
    list[1].piece_id = 2;
    assert!(!PiecePicker::accepts(&list));
    list[1].piece_id = 1;
    list.remove(0);
    assert!(!PiecePicker::accepts(&list));
}

#[test]
fn first_window_is_the_first_hundred() {
    let picker = PiecePicker::new(infos(250, 4));
    assert_eq!(picker.window(), (0, MAX_QUEUED));
    assert_eq!(picker.n_pieces(), 250);
    assert_eq!(picker.n_received(), 0);
    assert_eq!(picker.status(), PickerStatus::Running);
    assert_eq!(picker.status_of(0), Some(PieceStatus::Pending));
    assert_eq!(picker.status_of(99), Some(PieceStatus::Pending));
    assert_eq!(picker.status_of(100), None);

    let small = PiecePicker::new(infos(3, 4));
    assert_eq!(small.window(), (0, 3));
    assert_eq!(small.status_of(2), Some(PieceStatus::Pending));
    assert_eq!(small.status_of(3), None);
}

#[test]
fn torrent_without_pieces_is_finished_at_once() {
    let mut picker = PiecePicker::new(Vec::new());
    assert_eq!(picker.status(), PickerStatus::Finished);
    let session = PiecePickerHandle::new(1);
    assert_eq!(session.next_piece(&mut picker, &has_all(8)), NextPiece::Closed);
}

#[test]
fn lowest_piece_that_the_peer_has_is_leased() {
    let list = infos(10, 4);
    let mut picker = PiecePicker::new(list.clone());
    let session = PiecePickerHandle::new(7);
    let handle = lease(session.next_piece(&mut picker, &has_only(10, &[4, 6, 9])));
    assert_eq!(handle.piece_id, 4);
    assert_eq!(handle.piece_length, 4);
    assert_eq!(handle.piece_hash, list[4].hash);
    assert_eq!(handle.session, 7);
    assert_eq!(picker.status_of(4), Some(PieceStatus::InFlight(7)));
    assert_eq!(picker.status_of(6), Some(PieceStatus::Pending));
}

#[test]
fn two_sessions_never_hold_the_same_piece() {
    let mut picker = PiecePicker::new(infos(6, 4));
    let a = PiecePickerHandle::new(1);
    let b = PiecePickerHandle::new(2);
    let overlap = has_only(6, &[1, 2, 3]);
    let mut held = Vec::new();
    for turn in 0..6 {
        let asker = if turn % 2 == 0 { &a } else { &b };
        match asker.next_piece(&mut picker, &overlap) {
            NextPiece::Assigned(handle) => {
                assert!(!held.contains(&handle.piece_id));
                held.push(handle.piece_id);
            }
            NextPiece::Wait => assert_eq!(held.len(), 3),
            NextPiece::Closed => panic!("nothing is finished"),
        }
    }
    assert_eq!(held, vec![1, 2, 3]);
    assert_eq!(picker.status_of(1), Some(PieceStatus::InFlight(1)));
    assert_eq!(picker.status_of(2), Some(PieceStatus::InFlight(2)));
    assert_eq!(picker.status_of(3), Some(PieceStatus::InFlight(1)));
}

#[test]
fn peer_without_wanted_pieces_waits() {
    let mut picker = PiecePicker::new(infos(4, 4));
    let session = PiecePickerHandle::new(1);
    assert_eq!(session.next_piece(&mut picker, &has_only(4, &[])), NextPiece::Wait);
    assert_eq!(session.next_piece(&mut picker, &Bitfield::new()), NextPiece::Wait);
    // a bit past the window does not count
    let picker_of_many = &mut PiecePicker::new(infos(150, 4));
    assert_eq!(session.next_piece(picker_of_many, &has_only(150, &[120])), NextPiece::Wait);
}

#[test]
fn submitted_piece_leaves_only_after_the_sink_acknowledged() {
    let mut picker = PiecePicker::new(infos(2, 16));
    let session = PiecePickerHandle::new(3);
    let handle = lease(session.next_piece(&mut picker, &has_all(2)));
    assert_eq!(handle.piece_id, 0);
    let done = handle.submit(&mut picker, content(0, 16)).unwrap();
    assert_eq!(done, PieceDone { piece_id: 0, piece: content(0, 16) });
    assert_eq!(picker.status_of(0), Some(PieceStatus::Submitted(3)));
    assert_eq!(picker.n_received(), 0);
    // while the sink writes, nobody else gets the piece
    let other = PiecePickerHandle::new(4);
    assert_eq!(lease(other.next_piece(&mut picker, &has_all(2))).piece_id, 1);
    assert_eq!(other.next_piece(&mut picker, &has_all(2)), NextPiece::Wait);

    assert_eq!(picker.run(PickerEvent::PieceWritten(0)), PickerStatus::Running);
    assert_eq!(picker.status_of(0), None);
    assert_eq!(picker.n_received(), 1);
}

#[test]
fn acknowledgement_of_a_piece_not_handed_in_changes_nothing() {
    let mut picker = PiecePicker::new(infos(3, 16));
    let session = PiecePickerHandle::new(3);
    let _held = lease(session.next_piece(&mut picker, &has_all(3)));
    assert_eq!(picker.run(PickerEvent::PieceWritten(0)), PickerStatus::Running);
    assert_eq!(picker.run(PickerEvent::PieceWritten(1)), PickerStatus::Running);
    assert_eq!(picker.run(PickerEvent::PieceWritten(77)), PickerStatus::Running);
    assert_eq!(picker.n_received(), 0);
    assert_eq!(picker.status_of(0), Some(PieceStatus::InFlight(3)));
    assert_eq!(picker.status_of(1), Some(PieceStatus::Pending));
}

#[test]
fn wrong_bytes_are_not_handed_in() {
    let mut picker = PiecePicker::new(infos(2, 16));
    let session = PiecePickerHandle::new(3);
    let handle = lease(session.next_piece(&mut picker, &has_all(2)));
    let mut bytes = content(0, 16);
    bytes[5] ^= 0xff;
    assert_eq!(handle.submit(&mut picker, bytes), Err(SessionError::HashMismatch));
    // nothing was removed, nothing is on its way to the sink
    assert_eq!(picker.n_received(), 0);
    assert_eq!(picker.status_of(0), Some(PieceStatus::Pending));
    assert_eq!(picker.run(PickerEvent::PieceWritten(0)), PickerStatus::Running);
    assert_eq!(picker.status_of(0), Some(PieceStatus::Pending));
    // another session can take the piece
    let other = PiecePickerHandle::new(9);
    let again = lease(other.next_piece(&mut picker, &has_all(2)));
    assert_eq!(again.piece_id, 0);
    assert!(again.submit(&mut picker, content(0, 16)).is_ok());
}

#[test]
fn released_piece_is_pending_again() {
    let mut picker = PiecePicker::new(infos(2, 16));
    let session = PiecePickerHandle::new(3);
    let handle = lease(session.next_piece(&mut picker, &has_all(2)));
    handle.release(&mut picker);
    assert_eq!(picker.status_of(0), Some(PieceStatus::Pending));
    assert_eq!(lease(PiecePickerHandle::new(4).next_piece(&mut picker, &has_all(2))).piece_id, 0);
}

#[test]
fn lease_that_is_not_held_does_nothing() {
    let mut picker = PiecePicker::new(infos(2, 16));
    let session = PiecePickerHandle::new(3);
    let handle = lease(session.next_piece(&mut picker, &has_all(2)));
    let forged = bt_leech::piece_picker::PieceHandle {
        piece_id: handle.piece_id,
        piece_length: handle.piece_length,
        piece_hash: handle.piece_hash,
        session: 99,
    };
    assert_eq!(forged.submit(&mut picker, content(0, 16)), Err(SessionError::PickerClosed));
    assert_eq!(picker.status_of(0), Some(PieceStatus::InFlight(3)));
    let forged = bt_leech::piece_picker::PieceHandle {
        piece_id: 1,
        piece_length: 16,
        piece_hash: handle.piece_hash,
        session: 3,
    };
    forged.release(&mut picker);
    assert_eq!(picker.status_of(1), Some(PieceStatus::Pending));
    assert_eq!(picker.status_of(0), Some(PieceStatus::InFlight(3)));
    // once handed in, the lease is spent
    let done = handle.submit(&mut picker, content(0, 16)).unwrap();
    let spent = bt_leech::piece_picker::PieceHandle {
        piece_id: done.piece_id,
        piece_length: 16,
        piece_hash: [0; 20],
        session: 3,
    };
    spent.release(&mut picker);
    assert_eq!(picker.status_of(0), Some(PieceStatus::Submitted(3)));
}

#[test]
fn window_moves_on_when_it_is_empty() {
    let count = 230;
    let mut picker = PiecePicker::new(infos(count, 8));
    let session = PiecePickerHandle::new(1);
    let everything = has_all(count as usize);
    let mut written = Vec::new();
    let mut last_window = picker.window();
    loop {
        match session.next_piece(&mut picker, &everything) {
            NextPiece::Assigned(handle) => {
                let piece_id = handle.piece_id;
                assert!((last_window.0..last_window.1).contains(&(piece_id as usize)));
                handle.submit(&mut picker, content(piece_id, 8)).unwrap();
                let status = picker.run(PickerEvent::PieceWritten(piece_id));
                written.push(piece_id);
                let window = picker.window();
                assert!(window.0 >= last_window.0 && window.1 >= last_window.1);
                assert!(window.1 - window.0 <= MAX_QUEUED);
                last_window = window;
                assert_eq!(status == PickerStatus::Finished, written.len() == count as usize);
            }
            NextPiece::Wait => panic!("a piece is always free here"),
            NextPiece::Closed => break,
        }
    }
    assert_eq!(written, (0..count).collect::<Vec<u32>>());
    assert_eq!(picker.n_received(), count);
    assert_eq!(picker.window(), (200, 230));
    assert_eq!(picker.status(), PickerStatus::Finished);
}

#[test]
fn window_stays_while_a_piece_of_it_is_left() {
    let mut picker = PiecePicker::new(infos(150, 8));
    let session = PiecePickerHandle::new(1);
    let all_but_first = {
        let mut bits = has_all(150);
        bits.set(0, false);
        bits
    };
    for expected in 1..100 {
        let handle = lease(session.next_piece(&mut picker, &all_but_first));
        assert_eq!(handle.piece_id, expected);
        handle.submit(&mut picker, content(expected, 8)).unwrap();
        picker.run(PickerEvent::PieceWritten(expected));
    }
    assert_eq!(picker.window(), (0, 100));
    assert_eq!(session.next_piece(&mut picker, &all_but_first), NextPiece::Wait);
    let handle = lease(PiecePickerHandle::new(2).next_piece(&mut picker, &has_all(150)));
    assert_eq!(handle.piece_id, 0);
    handle.submit(&mut picker, content(0, 8)).unwrap();
    picker.run(PickerEvent::PieceWritten(0));
    assert_eq!(picker.window(), (100, 150));
    assert_eq!(lease(session.next_piece(&mut picker, &all_but_first)).piece_id, 100);
}

#[test]
fn shutdown_closes_the_picker() {
    let mut picker = PiecePicker::new(infos(4, 8));
    let session = PiecePickerHandle::new(1);
    let _held = lease(session.next_piece(&mut picker, &has_all(4)));
    assert_eq!(picker.run(PickerEvent::Shutdown), PickerStatus::Stopped);
    assert_eq!(picker.status(), PickerStatus::Stopped);
    assert_eq!(session.next_piece(&mut picker, &has_all(4)), NextPiece::Closed);
    assert_eq!(picker.run(PickerEvent::PieceWritten(0)), PickerStatus::Stopped);
    assert_eq!(picker.run(PickerEvent::Shutdown), PickerStatus::Stopped);
}

#[test]
fn every_piece_is_handed_in_exactly_once() {
    let count = 7u32;
    let mut picker = PiecePicker::new(infos(count, 32));
    let sessions = [PiecePickerHandle::new(1), PiecePickerHandle::new(2), PiecePickerHandle::new(3)];
    let bitfields = [has_only(7, &[0, 1, 2, 3]), has_only(7, &[2, 3, 4, 5]), has_only(7, &[5, 6, 0])];
    let mut sink: Vec<u32> = Vec::new();
    let mut turn = 0;
    while picker.status() == PickerStatus::Running {
        let who = turn % 3;
        turn += 1;
        assert!(turn < 100);
        if let NextPiece::Assigned(handle) = sessions[who].next_piece(&mut picker, &bitfields[who]) {
            let piece_id = handle.piece_id;
            assert!(bitfields[who].has(piece_id as usize));
            let done = handle.submit(&mut picker, content(piece_id, 32)).unwrap();
            sink.push(done.piece_id);
            picker.run(PickerEvent::PieceWritten(done.piece_id));
        }
    }
    sink.sort();
    assert_eq!(sink, (0..count).collect::<Vec<u32>>());
    assert_eq!(picker.status(), PickerStatus::Finished);
    assert_eq!(sessions[0].next_piece(&mut picker, &bitfields[0]), NextPiece::Closed);
}
