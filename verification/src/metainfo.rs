//! What a metainfo file says about the content: piece hashes, lengths, and
//! the digest that identifies the torrent.

pub mod download_info;
pub mod files;
#[allow(clippy::module_inception)]
pub mod metainfo;
pub mod piece_hashes_parser;
pub mod tracker_url;

pub use download_info::DownloadInfo;
pub use files::File;
pub use metainfo::Metainfo;

use sha1_smol::Sha1;
use vstd::prelude::*;

verus! {

/// The number of bytes in a SHA-1 digest.
pub const DIGEST_LENGTH: usize = 20;

/// The SHA-1 digest of one piece.
pub type PieceHash = [u8; 20];

/// The SHA-1 digest of a byte string.
pub uninterp spec fn sha1_digest(data: Seq<u8>) -> Seq<u8>;

/// `Sha1::from(data).digest().bytes()`: the 20-byte SHA-1 digest of `data`,
/// which depends on the bytes alone.
#[verifier::external_body]
pub(crate) fn sha1_of(data: &[u8]) -> (digest: [u8; 20])
    ensures
        digest@ == sha1_digest(data@),
{
    Sha1::from(data).digest().bytes()
}

/// Whether `data` hashes to `expected`.
pub fn hash_matches(data: &[u8], expected: &PieceHash) -> (matches: bool)
    ensures
        matches == (sha1_digest(data@) == expected@),
{
    let digest = sha1_of(data);
    crate::torrent::info_hash::same_digest(&digest, expected)
}

} // verus!
