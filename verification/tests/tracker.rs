use bt_leech::error::{MetainfoError, TrackerError};
use bt_leech::metainfo::tracker_url::{HttpUrl, TrackerUrl, UdpUrl};
use bt_leech::metainfo::{DownloadInfo, Metainfo};
use bt_leech::torrent::{InfoHash, PeerId};
use bt_leech::tracker::peers::{PeerAddresses, SocketAddress};
use bt_leech::tracker::request::{Requestable, TrackerRequest};
use bt_leech::tracker::response::{deserialize_socket_addrs, TrackerResponse, TrackerResponseResult};
use bt_leech::tracker::udp::{UDPConnectRequest, UDPConnectResponse};

struct Fixed {
    hash: Result<[u8; 20], MetainfoError>,
    length: usize,
}

impl Requestable for Fixed {
    fn get_info_hash(&self) -> Result<InfoHash, MetainfoError> {
        self.hash.map(InfoHash::new)
    }

    fn get_request_length(&self) -> usize {
        self.length
    }
}

#[test]
fn first_request_has_nothing_done_and_everything_left() {
    let peer_id = PeerId::with_suffix(b"abcdefghijkl");
    let torrent = Fixed { hash: Ok([3; 20]), length: 123456 };
    let request = TrackerRequest::new(peer_id.clone(), 8860, &torrent).unwrap();
    assert_eq!(request.info_hash, InfoHash::new([3; 20]));
    assert_eq!(request.peer_id, peer_id);
    assert_eq!(request.port, 8860);
    assert_eq!(request.uploaded, 0);
    assert_eq!(request.downloaded, 0);
    assert_eq!(request.left, 123456);
    assert_eq!(request.compact, 1);
}

#[test]
fn request_from_an_answer() {
    let peer_id = PeerId::with_suffix(b"abcdefghijkl");
    let request =
        TrackerRequest::from_answer(Ok(InfoHash::new([9; 20])), peer_id.clone(), 6881, 77).unwrap();
    assert_eq!(request.info_hash, InfoHash::new([9; 20]));
    assert_eq!(request.peer_id, peer_id);
    assert_eq!((request.port, request.left, request.compact), (6881, 77, 1));
    assert_eq!((request.uploaded, request.downloaded), (0, 0));
    let refused =
        TrackerRequest::from_answer(Err(MetainfoError::InconsistentLengths), peer_id, 6881, 77);
    assert_eq!(refused.err(), Some(MetainfoError::InconsistentLengths));
}

/// A torrent without an info hash that counts how often its length is asked for.
struct Counting {
    asked: std::cell::Cell<u32>,
}

impl Requestable for Counting {
    fn get_info_hash(&self) -> Result<InfoHash, MetainfoError> {
        Err(MetainfoError::MalformedHashes)
    }

    fn get_request_length(&self) -> usize {
        self.asked.set(self.asked.get() + 1);
        5
    }
}

#[test]
fn length_is_not_asked_for_without_an_info_hash() {
    let torrent = Counting { asked: std::cell::Cell::new(0) };
    assert!(TrackerRequest::new(PeerId::new([1; 20]), 1, &torrent).is_err());
    assert_eq!(torrent.asked.get(), 0);
}

#[test]
fn request_fails_with_the_torrent_s_error() {
    let torrent = Fixed { hash: Err(MetainfoError::MalformedHashes), length: 1 };
    let result = TrackerRequest::new(PeerId::with_suffix(b"abcdefghijkl"), 1, &torrent);
    assert_eq!(result.err(), Some(MetainfoError::MalformedHashes));
}

#[test]
fn url_query_spells_every_field() {
    let mut hash = [0u8; 20];
    for (i, byte) in hash.iter_mut().enumerate() {
        *byte = (i as u8) * 13;
    }
    let torrent = Fixed { hash: Ok(hash), length: 1_000_000_007 };
    let request =
        TrackerRequest::new(PeerId::with_suffix(b"aZ09-_.~ /%+"), 8860, &torrent).unwrap();
    assert_eq!(
        request.to_url_query(),
        "info_hash=%00%0D%1A%274AN%5Bhu%82%8F%9C%A9%B6%C3%D0%DD%EA%F7\
         &peer_id=-CX0000-aZ09-_.~%20%2F%25%2B\
         &port=8860&uploaded=0&downloaded=0&left=1000000007&compact=1"
    );
}

#[test]
fn numbers_are_written_in_decimal() {
    for (port, left) in [(0u16, 0usize), (9, 10), (65535, 99), (100, usize::MAX)] {
        let torrent = Fixed { hash: Ok([b'a'; 20]), length: left };
        let mut request = TrackerRequest::new(PeerId::new([b'b'; 20]), port, &torrent).unwrap();
        request.uploaded = 4096;
        request.downloaded = 70;
        assert_eq!(
            request.to_url_query(),
            format!(
                "info_hash={}&peer_id={}&port={}&uploaded=4096&downloaded=70&left={}&compact=1",
                "a".repeat(20),
                "b".repeat(20),
                port,
                left
            )
        );
    }
}

#[test]
fn compact_peers_are_six_bytes_each() {
    let bytes = [192, 168, 0, 1, 0x1a, 0xe1, 10, 0, 0, 255, 0, 80, 255, 255, 255, 255, 255, 255];
    let expected = vec![
        SocketAddress { ip: [192, 168, 0, 1], port: 6881 },
        SocketAddress { ip: [10, 0, 0, 255], port: 80 },
        SocketAddress { ip: [255, 255, 255, 255], port: 65535 },
    ];
    assert_eq!(PeerAddresses::from_compact(&bytes), Ok(PeerAddresses(expected.clone())));
    assert_eq!(deserialize_socket_addrs(&bytes), Ok(expected));
    assert_eq!(deserialize_socket_addrs(&[]), Ok(vec![]));
}

#[test]
fn compact_peers_with_a_remainder_are_malformed() {
    for len in [1usize, 5, 7, 11, 13] {
        let bytes = vec![1u8; len];
        assert_eq!(PeerAddresses::from_compact(&bytes), Err(TrackerError::MalformedPeers));
        assert_eq!(deserialize_socket_addrs(&bytes), Err(TrackerError::MalformedPeers));
    }
}

#[test]
fn tracker_failure_is_marked_as_the_tracker_s() {
    let response = TrackerResponse {
        request_interval_seconds: 1800,
        peer_addreses: vec![SocketAddress { ip: [1, 2, 3, 4], port: 5 }],
    };
    assert_eq!(TrackerResponseResult::Success(response.clone()).into_result(), Ok(response));
    let failure = TrackerResponseResult::Failure { failure_reason: "torrent not registered".into() };
    assert_eq!(
        failure.into_result(),
        Err(TrackerError::Failure("torrent not registered (Tracker)".into()))
    );
    let failure = TrackerResponseResult::Failure { failure_reason: String::new() };
    assert_eq!(failure.into_result(), Err(TrackerError::Failure(" (Tracker)".into())));
}

#[test]
fn connect_request_bytes() {
    let request = UDPConnectRequest::new(0xdead_beef);
    assert_eq!(
        request.to_bytes(),
        [0x00, 0x00, 0x04, 0x17, 0x27, 0x10, 0x19, 0x80, 0, 0, 0, 0, 0xde, 0xad, 0xbe, 0xef]
    );
    assert_eq!(UDPConnectRequest::new(0).to_bytes()[12..], [0, 0, 0, 0]);
    let a = UDPConnectRequest::with_random_id();
    assert_eq!(a.to_bytes()[..12], request.to_bytes()[..12]);
    assert_eq!(a.to_bytes()[12..], a.transaction_id.to_be_bytes());
}

#[test]
fn connect_response_bytes() {
    let packet = vec![0, 0, 0, 0, 0x12, 0x34, 0x56, 0x78, 0xff, 2, 3, 4, 5, 6, 7, 8];
    let response = UDPConnectResponse::from_bytes(packet.clone()).unwrap();
    assert_eq!(
        response,
        UDPConnectResponse { action: 0, transaction_id: 0x12345678, connection_id: 0xff02030405060708 }
    );
    let mut longer = packet.clone();
    longer.extend([9, 9, 9]);
    assert_eq!(UDPConnectResponse::from_bytes(longer), Ok(response.clone()));
    for len in 0..16 {
        assert_eq!(
            UDPConnectResponse::from_bytes(packet[..len].to_vec()),
            Err(TrackerError::ShortPacket)
        );
    }
    let all_ones = UDPConnectResponse::from_bytes(vec![0xff; 16]).unwrap();
    assert_eq!(all_ones.action, u32::MAX);
    assert_eq!(all_ones.connection_id, u64::MAX);
}

#[test]
fn connection_is_granted_to_the_matching_request() {
    let request = UDPConnectRequest::new(77);
    let granted = UDPConnectResponse { action: 0, transaction_id: 77, connection_id: 5 };
    assert_eq!(granted.connection_for(&request), Some(5));
    let other = UDPConnectResponse { action: 0, transaction_id: 78, connection_id: 5 };
    assert_eq!(other.connection_for(&request), None);
    let error = UDPConnectResponse { action: 3, transaction_id: 77, connection_id: 5 };
    assert_eq!(error.connection_for(&request), None);
}

#[test]
fn tracker_url_is_told_apart_by_its_scheme() {
    assert_eq!(
        TrackerUrl::new("http://tracker.example.org:6969/announce"),
        Ok(TrackerUrl::Http(HttpUrl("http://tracker.example.org:6969/announce".into())))
    );
    assert_eq!(
        TrackerUrl::new("udp://tracker.example.org:1337"),
        Ok(TrackerUrl::Udp(UdpUrl("udp://tracker.example.org:1337".into())))
    );
    assert_eq!(
        TrackerUrl::new("https://tracker.example.org/announce"),
        Err(TrackerError::UnsupportedScheme("https".into()))
    );
    assert_eq!(
        TrackerUrl::new("HTTP://Tracker.Example.org/announce"),
        Ok(TrackerUrl::Http(HttpUrl("HTTP://Tracker.Example.org/announce".into())))
    );
    assert_eq!(TrackerUrl::new("wss://x.example"), Err(TrackerError::UnsupportedScheme("wss".into())));
}

#[test]
fn text_that_is_no_url_is_invalid() {
    assert_eq!(TrackerUrl::new("not a url"), Err(TrackerError::InvalidUrl));
    assert_eq!(TrackerUrl::new(""), Err(TrackerError::InvalidUrl));
    assert_eq!(TrackerUrl::new("http://"), Err(TrackerError::InvalidUrl));
    // a URL that names no host
    assert_eq!(TrackerUrl::new("mailto:someone@example.org"), Err(TrackerError::InvalidUrl));
    assert_eq!(TrackerUrl::new("udp:nohost"), Err(TrackerError::InvalidUrl));
}

#[test]
fn url_kind_from_given_parts() {
    assert_eq!(TrackerUrl::with_parts("x", None), Err(TrackerError::InvalidUrl));
    assert_eq!(
        TrackerUrl::with_parts("x", Some(("http".into(), false))),
        Err(TrackerError::InvalidUrl)
    );
    assert_eq!(
        TrackerUrl::with_parts("x", Some(("http".into(), true))),
        Ok(TrackerUrl::Http(HttpUrl("x".into())))
    );
    assert_eq!(
        TrackerUrl::with_parts("y", Some(("udp".into(), true))),
        Ok(TrackerUrl::Udp(UdpUrl("y".into())))
    );
    assert_eq!(
        TrackerUrl::with_parts("y", Some(("udpx".into(), true))),
        Err(TrackerError::UnsupportedScheme("udpx".into()))
    );
    assert_eq!(HttpUrl("abc".into()).into_inner(), "abc");
    assert_eq!(UdpUrl("abc".into()).as_str(), "abc");
}

#[test]
fn metainfo_is_asked_about_by_the_hash_of_its_info() {
    let metainfo = Metainfo {
        announce: TrackerUrl::new("http://t.example/announce").unwrap(),
        file_info: DownloadInfo::SingleFile {
            filename: "a.bin".into(),
            length: 40000,
            md5sum: None,
            piece_length: 32768,
            pieces: vec![[1; 20], [2; 20]],
            private: None,
        },
        info_bytes: b"abc".to_vec(),
        announce_list: None,
        creation_date: None,
        created_by: None,
        comment: None,
        encoding: None,
    };
    // the SHA-1 digest of "abc"
    let digest = [
        0xa9, 0x99, 0x3e, 0x36, 0x47, 0x06, 0x81, 0x6a, 0xba, 0x3e, 0x25, 0x71, 0x78, 0x50, 0xc2,
        0x6c, 0x9c, 0xd0, 0xd8, 0x9d,
    ];
    assert_eq!(metainfo.get_info_hash(), Ok(InfoHash::new(digest)));
    assert_eq!(metainfo.get_request_length(), 40000);
    let request = TrackerRequest::new(PeerId::new([b'p'; 20]), 1, &metainfo).unwrap();
    assert_eq!(request.info_hash, InfoHash::new(digest));
    assert_eq!(request.left, 40000);
    let direct = metainfo.tracker_request(PeerId::new([b'p'; 20]), 1);
    assert_eq!(direct.to_url_query(), request.to_url_query());
    assert_eq!(direct.info_hash, InfoHash::new(digest));
    assert_eq!(direct.left, 40000);
    let first = TrackerRequest::first(InfoHash::new(digest), PeerId::new([b'p'; 20]), 1, 40000);
    assert_eq!(first.to_url_query(), request.to_url_query());
}
