use bt_leech::error::SessionError;
use bt_leech::peer_protocol::handshake::{PeerHandshake, HANDSHAKE_SIZE, PROTOCOL_PREFIX};
use bt_leech::peers::download_worker::PeerAddr;
use bt_leech::torrent::peer_id::SUFFIX_LEN;
use bt_leech::torrent::{InfoHash, PeerId};
use bt_leech::tracker::peers::SocketAddress;

const INFO_HASH: [u8; 20] = [0; 20];
const PEER_ID_SUFFIX: [u8; SUFFIX_LEN] = [7; SUFFIX_LEN];

fn peer_id() -> PeerId {
    PeerId::with_suffix(&PEER_ID_SUFFIX)
}

fn info_hash() -> InfoHash {
    InfoHash::new(INFO_HASH)
}

fn handshake() -> PeerHandshake {
    PeerHandshake::new(info_hash(), peer_id())
}

fn handshake_bytes() -> [u8; 68] {
    let mut out: Vec<u8> = Vec::new();
    out.push(19);
    out.extend_from_slice(b"BitTorrent protocol");
    out.extend_from_slice(&[0; 8]);
    out.extend_from_slice(info_hash().as_bytes());
    out.extend_from_slice(peer_id().as_bytes());
    out.try_into().unwrap()
}

#[test]
fn test_into_bytes() {
    assert_eq!(handshake().into_bytes(), handshake_bytes());
}

#[test]
fn test_decode_from_bytes() {
    let out = PeerHandshake::from_bytes(handshake_bytes());
    assert_eq!(out.into_bytes(), handshake_bytes());
}

#[test]
fn handshake_happy_path() {
    let ours = PeerId::new(*b"-CX0000-AAAAAAAAAAAA");
    assert_eq!(ours, PeerId::with_suffix(b"AAAAAAAAAAAA"));
    let sent = PeerHandshake::new(InfoHash::new([0; 20]), ours).into_bytes();
    assert_eq!(sent.len(), HANDSHAKE_SIZE);
    assert_eq!(sent[0], 0x13);
    assert_eq!(&sent[1..20], b"BitTorrent protocol");
    assert_eq!(&sent[20..28], &[0u8; 8]);
    assert_eq!(&sent[28..48], &[0u8; 20]);
    assert_eq!(&sent[48..68], b"-CX0000-AAAAAAAAAAAA");
    assert_eq!(&PROTOCOL_PREFIX, b"BitTorrent protocol");
}

#[test]
fn from_bytes_reads_every_field() {
    let mut bytes = [0u8; 68];
    for (i, byte) in bytes.iter_mut().enumerate() {
        *byte = i as u8 + 100;
    }
    let read = PeerHandshake::from_bytes(bytes);
    assert_eq!(read.protocol_prefix_length, 100);
    assert_eq!(&read.protocol_prefix[..], &bytes[1..20]);
    assert_eq!(&read.reserved_bytes[..], &bytes[20..28]);
    assert_eq!(&read.info_hash.as_bytes()[..], &bytes[28..48]);
    assert_eq!(&read.peer_id.as_bytes()[..], &bytes[48..68]);
    assert!(!read.has_standard_prefix());
    assert_eq!(read.into_bytes(), bytes);
}

#[test]
fn standard_prefix_is_told_apart() {
    assert!(handshake().has_standard_prefix());
    let mut bytes = handshake_bytes();
    bytes[5] ^= 1;
    assert!(!PeerHandshake::from_bytes(bytes).has_standard_prefix());
    let mut bytes = handshake_bytes();
    bytes[0] = 18;
    assert!(!PeerHandshake::from_bytes(bytes).has_standard_prefix());
}

fn somewhere() -> SocketAddress {
    SocketAddress { ip: [10, 0, 0, 1], port: 6881 }
}

#[test]
fn greeting_is_our_handshake() {
    let peer = PeerAddr::new(somewhere());
    assert_eq!(peer.greeting(info_hash(), peer_id()), handshake_bytes());
}

#[test]
fn reply_for_our_torrent_is_accepted() {
    let theirs = PeerId::with_suffix(b"zzzzzzzzzzzz");
    let reply = PeerHandshake::new(info_hash(), theirs.clone()).into_bytes();
    let connection = PeerAddr::new(somewhere()).handshake(&info_hash(), reply).unwrap();
    assert_eq!(connection.peer_id, theirs);
    assert_eq!(connection.peer_addr, somewhere());
}

#[test]
fn odd_prefix_is_tolerated() {
    let mut reply = handshake_bytes();
    reply[1..20].copy_from_slice(b"SomeOther protocol!");
    reply[20] = 0x10;
    let connection = PeerAddr::new(somewhere()).handshake(&info_hash(), reply).unwrap();
    assert_eq!(connection.peer_id, peer_id());
}

#[test]
fn reply_for_another_torrent_is_a_mismatch() {
    for flipped in 28..48 {
        let mut reply = handshake_bytes();
        reply[flipped] = 1;
        let result = PeerAddr::new(somewhere()).handshake(&info_hash(), reply);
        assert_eq!(result.unwrap_err(), SessionError::HandshakeMismatch);
    }
}
