use bt_leech::cli::metainfo_file_path::{extension_is_torrent, MetainfoFilePath};
use bt_leech::cli::DEFAULT_PORT;
use bt_leech::error::MetainfoError;
use bt_leech::metainfo::files::total_length;
use bt_leech::metainfo::piece_hashes_parser::{deserialize, serialize};
use bt_leech::metainfo::{hash_matches, DownloadInfo, File};
use bt_leech::piece_picker::{PieceInfo, PiecePicker};

fn file(length: usize) -> File {
    File { path: vec!["dir".into(), "name".into()], length, md5sum: None }
}

fn single(length: usize, piece_length: usize, n_pieces: usize) -> DownloadInfo {
    DownloadInfo::SingleFile {
        filename: "content.bin".into(),
        length,
        md5sum: None,
        piece_length,
        pieces: (0..n_pieces).map(|i| [i as u8; 20]).collect(),
        private: None,
    }
}

fn multi(lengths: &[usize], piece_length: usize, n_pieces: usize) -> DownloadInfo {
    DownloadInfo::MultiFile {
        dirname: "content".into(),
        files: lengths.iter().map(|&length| file(length)).collect(),
        piece_length,
        pieces: (0..n_pieces).map(|i| [i as u8; 20]).collect(),
        private: Some(1),
    }
}

#[test]
fn piece_hashes_are_cut_every_twenty_bytes() {
    let bytes: Vec<u8> = (0..60).collect();
    let hashes = deserialize(&bytes).unwrap();
    assert_eq!(hashes.len(), 3);
    for (k, hash) in hashes.iter().enumerate() {
        assert_eq!(&hash[..], &bytes[20 * k..20 * k + 20]);
    }
    assert_eq!(serialize(&hashes), bytes);
    assert_eq!(deserialize(&[]), Ok(vec![]));
    assert_eq!(serialize(&[]), Vec::<u8>::new());
}

#[test]
fn piece_hashes_with_a_remainder_are_malformed() {
    for len in [1usize, 19, 21, 39, 41] {
        assert_eq!(deserialize(&vec![0u8; len]), Err(MetainfoError::MalformedHashes));
    }
}

#[test]
fn hash_is_sha1() {
    let digest_of_abc = [
        0xa9, 0x99, 0x3e, 0x36, 0x47, 0x06, 0x81, 0x6a, 0xba, 0x3e, 0x25, 0x71, 0x78, 0x50, 0xc2,
        0x6c, 0x9c, 0xd0, 0xd8, 0x9d,
    ];
    let digest_of_nothing = [
        0xda, 0x39, 0xa3, 0xee, 0x5e, 0x6b, 0x4b, 0x0d, 0x32, 0x55, 0xbf, 0xef, 0x95, 0x60, 0x18,
        0x90, 0xaf, 0xd8, 0x07, 0x09,
    ];
    assert!(hash_matches(b"abc", &digest_of_abc));
    assert!(hash_matches(b"", &digest_of_nothing));
    assert!(!hash_matches(b"abd", &digest_of_abc));
    assert!(!hash_matches(b"abc", &digest_of_nothing));
}

#[test]
fn request_length_is_the_content_length() {
    assert_eq!(single(12345, 100, 124).get_request_length(), 12345);
    assert_eq!(multi(&[1, 20, 300], 100, 4).get_request_length(), 321);
    assert_eq!(multi(&[], 100, 0).get_request_length(), 0);
    assert_eq!(total_length(&vec![file(7), file(8)]), 15);
    assert_eq!(multi(&[usize::MAX, 1], 100, 4).get_request_length(), usize::MAX);
}

#[test]
fn last_piece_has_what_is_left() {
    let info = single(2 * 32768 + 10240, 32768, 3);
    assert_eq!(info.piece_length(), 32768);
    assert_eq!(info.pieces().len(), 3);
    let infos = info.piece_infos().unwrap();
    assert_eq!(
        infos,
        vec![
            PieceInfo { piece_id: 0, hash: [0; 20], length: 32768 },
            PieceInfo { piece_id: 1, hash: [1; 20], length: 32768 },
            PieceInfo { piece_id: 2, hash: [2; 20], length: 10240 },
        ]
    );
    assert!(PiecePicker::accepts(&infos));
}

#[test]
fn whole_last_piece_and_single_piece() {
    let infos = multi(&[100, 100], 100, 2).piece_infos().unwrap();
    assert_eq!(infos.iter().map(|info| info.length).collect::<Vec<u32>>(), vec![100, 100]);
    let infos = single(1, 16384, 1).piece_infos().unwrap();
    assert_eq!(infos.iter().map(|info| info.length).collect::<Vec<u32>>(), vec![1]);
    assert_eq!(single(0, 16384, 0).piece_infos(), Ok(vec![]));
}

#[test]
fn lengths_that_do_not_go_together_are_refused() {
    let refused = Err(MetainfoError::InconsistentLengths);
    // a digest too many, a digest too few
    assert_eq!(single(200, 100, 3).piece_infos(), refused);
    assert_eq!(single(201, 100, 2).piece_infos(), refused);
    assert_eq!(single(100, 100, 0).piece_infos(), refused);
    assert_eq!(single(0, 100, 1).piece_infos(), refused);
    // no piece length, or one that a block offset cannot count
    assert_eq!(single(200, 0, 2).piece_infos(), refused);
    assert_eq!(single(0, 0, 0).piece_infos(), refused);
    if usize::BITS > 32 {
        assert_eq!(single(1, 1 << 32, 1).piece_infos(), refused);
        assert!(single(u32::MAX as usize, u32::MAX as usize, 1).piece_infos().is_ok());
    }
}

#[test]
fn metainfo_path_must_be_a_torrent_file() {
    assert_eq!(
        MetainfoFilePath::new("some/dir/ubuntu.torrent".into(), true),
        Ok(MetainfoFilePath("some/dir/ubuntu.torrent".into()))
    );
    assert_eq!(
        MetainfoFilePath::new("ubuntu.torrent".into(), false),
        Err(MetainfoError::NotAFile)
    );
    assert_eq!(MetainfoFilePath::new("ubuntu.iso".into(), false), Err(MetainfoError::NotAFile));
    for path in ["ubuntu.iso", "ubuntu.torrent.bak", "torrent", ".torrent", "dir/.torrent", "", "x.Torrent"] {
        assert_eq!(MetainfoFilePath::new(path.into(), true), Err(MetainfoError::NotATorrent));
    }
    assert_eq!(MetainfoFilePath::new("x.torrent".into(), true).unwrap().as_str(), "x.torrent");
    assert!(extension_is_torrent("a.b.torrent".as_bytes()));
    assert!(extension_is_torrent("..torrent".as_bytes()));
    assert!(extension_is_torrent("ü.torrent".as_bytes()));
    assert!(!extension_is_torrent("/.torrent".as_bytes()));
}

#[test]
fn default_port() {
    assert_eq!(DEFAULT_PORT, 8860);
}
