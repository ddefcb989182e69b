//! The path of a metainfo file, which must name a file and end in `.torrent`.

use crate::error::MetainfoError;
use vstd::prelude::*;
use vstd::string::*;

verus! {

/// The bytes of `.torrent`.
pub const TORRENT_SUFFIX: [u8; 8] = [0x2e, 0x74, 0x6f, 0x72, 0x72, 0x65, 0x6e, 0x74];

/// The path of a metainfo file.
#[derive(Debug, Clone, PartialEq, Eq)]
pub struct MetainfoFilePath(pub String);

/// Whether a path, as bytes, ends in a file name with the extension
/// `torrent`: the last nine bytes are a byte other than `/` and `.torrent`.
pub open spec fn has_torrent_extension(path: Seq<u8>) -> bool {
    &&& path.len() >= 9
    &&& path.subrange(path.len() - 8, path.len() as int) == TORRENT_SUFFIX@
    &&& path[path.len() - 9] != 0x2f
}

/// The bytes of a path: its text in UTF-8.
pub open spec fn path_bytes(path: Seq<char>) -> Seq<u8> {
    vstd::utf8::encode_utf8(path)
}

impl MetainfoFilePath {
    /// Accepts the path of a metainfo file. `is_file` says whether the path
    /// names a file on disk. A path that does not is refused first; then one
    /// without the extension `torrent`.
    pub fn new(path: String, is_file: bool) -> (result: Result<Self, MetainfoError>)
        ensures
            !is_file ==> result == Err::<Self, _>(MetainfoError::NotAFile),
            is_file && !has_torrent_extension(path_bytes(path@)) ==> result == Err::<
                Self,
                _,
            >(MetainfoError::NotATorrent),
            is_file && has_torrent_extension(path_bytes(path@)) ==> result == Ok::<
                _,
                MetainfoError,
            >(MetainfoFilePath(path)),
    {
        if !is_file {
            return Err(MetainfoError::NotAFile);
        }
        if !extension_is_torrent(path.as_str().as_bytes()) {
            return Err(MetainfoError::NotATorrent);
        }
        Ok(MetainfoFilePath(path))
    }

    /// The path as text.
    pub fn as_str(&self) -> (path: &str)
        ensures
            path@ == self.0@,
    {
        self.0.as_str()
    }
}

/// Whether a path ends in a file name with the extension `torrent`.
pub fn extension_is_torrent(path: &[u8]) -> (torrent: bool)
    ensures
        torrent == has_torrent_extension(path@),
{
    let len = path.len();
    if len < 9 {
        return false;
    }
    if path[len - 9] == 0x2f {
        return false;
    }
    let mut i: usize = 0;
    while i < 8
        invariant
            i <= 8,
            len == path@.len(),
            len >= 9,
            forall|j: int| 0 <= j < i ==> path@[len - 8 + j] == TORRENT_SUFFIX@[j],
        decreases 8 - i,
    {
        if path[len - 8 + i] != TORRENT_SUFFIX[i] {
            assert(path@.subrange(len - 8, len as int)[i as int] != TORRENT_SUFFIX@[i as int]);
            return false;
        }
        i += 1;
    }
    assert(path@.subrange(len - 8, len as int) =~= TORRENT_SUFFIX@);
    true
}

} // verus!
