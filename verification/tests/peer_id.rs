use bt_leech::torrent::peer_id::{PEER_ID_SIZE, PEER_ID_VENDOR_PREFIX};
use bt_leech::torrent::{InfoHash, PeerId};
use rand::distributions::Uniform;
use rand::prelude::Rng;

const PEER_ID_LEN: usize = 20;
const PREFIX: &[u8; 8] = b"-CX0000-";

#[test]
fn test_peer_id() {
    let suffix = {
        let mut suffix = [0u8; PEER_ID_LEN - PREFIX.len()];
        let mut rng = rand::thread_rng();
        let dist = Uniform::from(0..=u8::MAX);
        suffix.iter_mut().for_each(|pos| {
            *pos = rng.sample(dist);
        });
        suffix
    };

    let peer_id = PeerId::with_suffix(&suffix);
    let peer_id_slice = peer_id.as_bytes();

    let test_peer_id_slice = {
        let mut buffer = [0; 20];
        buffer[..PREFIX.len()].copy_from_slice(PREFIX);
        buffer[PREFIX.len()..].copy_from_slice(&suffix);
        buffer
    };
    assert_eq!(peer_id_slice, &test_peer_id_slice);
}

#[test]
fn vendor_prefix_is_cx() {
    assert_eq!(&PEER_ID_VENDOR_PREFIX, b"-CX0000-");
    assert_eq!(PEER_ID_SIZE, 20);
}

#[test]
fn random_suffix_is_alphanumeric() {
    let mut seen = Vec::new();
    for _ in 0..20 {
        let id = PeerId::with_random_suffix();
        let bytes = id.as_bytes();
        assert_eq!(&bytes[..8], b"-CX0000-");
        assert!(bytes[8..].iter().all(|b| b.is_ascii_alphanumeric()));
        seen.push(*bytes);
    }
    seen.sort();
    seen.dedup();
    assert!(seen.len() > 1);
}

#[test]
fn info_hash_keeps_its_bytes() {
    let mut bytes = [0u8; 20];
    bytes[19] = 9;
    let hash = InfoHash::new(bytes);
    assert_eq!(hash.as_bytes(), &bytes);
    assert!(hash.matches(&InfoHash::new(bytes)));
    assert!(!hash.matches(&InfoHash::new([0; 20])));
}
