//! The `info` dictionary of a metainfo file: what the content consists of
//! and how it is cut into pieces.

use super::files::{files_length, total_length, File};
use super::PieceHash;
use crate::error::MetainfoError;
use crate::piece_picker::piece_picker::valid_piece_list;
use crate::piece_picker::PieceInfo;
use vstd::prelude::*;

verus! {

/// The content of a torrent: several files below a directory, or one file.
#[derive(Debug, Clone)]
pub enum DownloadInfo {
    MultiFile {
        dirname: String,
        files: Vec<File>,
        piece_length: usize,
        pieces: Vec<PieceHash>,
        private: Option<i64>,
    },
    SingleFile {
        filename: String,
        length: usize,
        md5sum: Option<String>,
        piece_length: usize,
        pieces: Vec<PieceHash>,
        private: Option<i64>,
    },
}

/// The length of piece `piece_id` of content `total` bytes long, cut into
/// `count` pieces of `piece_length` bytes: the last piece is what is left.
pub open spec fn piece_length_of(total: nat, piece_length: nat, count: nat, piece_id: int) -> int {
    if piece_id + 1 == count {
        total - (count - 1) * piece_length
    } else {
        piece_length as int
    }
}

/// Whether content of `total` bytes is cut into exactly `count` pieces of
/// `piece_length` bytes, the last one not empty, with lengths and count that
/// fit 32 bits.
pub open spec fn pieces_fit(total: nat, piece_length: nat, count: nat) -> bool {
    &&& 0 < piece_length <= u32::MAX
    &&& count <= u32::MAX
    &&& (count == 0 ==> total == 0)
    &&& (count > 0 ==> (count - 1) * piece_length < total <= count * piece_length)
}

impl DownloadInfo {
    /// The number of bytes of content; of several files, the sum of their lengths.
    pub open spec fn content_length(&self) -> nat {
        match self {
            DownloadInfo::SingleFile { length, .. } => *length as nat,
            DownloadInfo::MultiFile { files, .. } => files_length(files@),
        }
    }

    /// The length of every piece but possibly the last one.
    pub open spec fn spec_piece_length(&self) -> usize {
        match self {
            DownloadInfo::SingleFile { piece_length, .. } => *piece_length,
            DownloadInfo::MultiFile { piece_length, .. } => *piece_length,
        }
    }

    /// The digests of the pieces, in order.
    pub open spec fn spec_pieces(&self) -> Seq<PieceHash> {
        match self {
            DownloadInfo::SingleFile { pieces, .. } => pieces@,
            DownloadInfo::MultiFile { pieces, .. } => pieces@,
        }
    }

    /// The content length, or `u64::MAX` where the sum of the file lengths is above it.
    fn content_length_wide(&self) -> (length: u64)
        ensures
            length == (if self.content_length() <= u64::MAX {
                self.content_length()
            } else {
                u64::MAX as nat
            }),
    {
        match self {
            DownloadInfo::SingleFile { length, .. } => *length as u64,
            DownloadInfo::MultiFile { files, .. } => total_length(files),
        }
    }

    /// The number of bytes to download: the content length, or `usize::MAX`
    /// where the sum of the file lengths is above it.
    pub fn get_request_length(&self) -> (length: usize)
        ensures
            length == (if self.content_length() <= usize::MAX {
                self.content_length()
            } else {
                usize::MAX as nat
            }),
    {
        let wide = self.content_length_wide();
        if wide > usize::MAX as u64 {
            usize::MAX
        } else {
            wide as usize
        }
    }

    /// The length of every piece but possibly the last one.
    pub fn piece_length(&self) -> (piece_length: usize)
        ensures
            piece_length == self.spec_piece_length(),
    {
        match self {
            DownloadInfo::SingleFile { piece_length, .. } => *piece_length,
            DownloadInfo::MultiFile { piece_length, .. } => *piece_length,
        }
    }

    /// The digests of the pieces, in order.
    pub fn pieces(&self) -> (pieces: &Vec<PieceHash>)
        ensures
            pieces@ == self.spec_pieces(),
    {
        match self {
            DownloadInfo::SingleFile { pieces, .. } => pieces,
            DownloadInfo::MultiFile { pieces, .. } => pieces,
        }
    }

    /// The pieces of the torrent as the picker takes them: piece `i` has id
    /// `i`, the `i`-th digest, and the piece length, but for the last piece,
    /// which has what is left of the content. Fails exactly where the content
    /// is not cut into as many pieces as there are digests.
    pub fn piece_infos(&self) -> (result: Result<Vec<PieceInfo>, MetainfoError>)
        ensures
            !pieces_fit(
                self.content_length(),
                self.spec_piece_length() as nat,
                self.spec_pieces().len(),
            ) ==> result == Err::<Vec<PieceInfo>, _>(MetainfoError::InconsistentLengths),
            pieces_fit(
                self.content_length(),
                self.spec_piece_length() as nat,
                self.spec_pieces().len(),
            ) ==> result.is_ok() && ({
                let infos = result.unwrap()@;
                &&& valid_piece_list(infos)
                &&& infos.len() == self.spec_pieces().len()
                &&& forall|i: int|
                    0 <= i < infos.len() ==> (#[trigger] infos[i]).hash == self.spec_pieces()[i]
                        && infos[i].length == piece_length_of(
                        self.content_length(),
                        self.spec_piece_length() as nat,
                        infos.len(),
                        i,
                    )
            }),
    {
        let total = self.content_length_wide();
        let piece_length = self.piece_length();
        let pieces = self.pieces();
        let count = pieces.len();
        if piece_length == 0 || piece_length > 0xffff_ffff || count > 0xffff_ffff {
            return Err(MetainfoError::InconsistentLengths);
        }
        if count == 0 {
            if total != 0 {
                return Err(MetainfoError::InconsistentLengths);
            }
            return Ok(Vec::new());
        }
        assert((count - 1) * piece_length <= 0xffff_fffe * 0xffff_ffff && count * piece_length
            <= 0xffff_ffff * 0xffff_ffff) by (nonlinear_arith)
            requires
                0 < count <= 0xffff_ffff,
                0 < piece_length <= 0xffff_ffff,
        ;
        let before_last: u64 = (count as u64 - 1) * (piece_length as u64);
        assert(count * piece_length == before_last + piece_length) by (nonlinear_arith)
            requires
                before_last == (count - 1) * piece_length,
        ;
        if total <= before_last || total - before_last > piece_length as u64 {
            return Err(MetainfoError::InconsistentLengths);
        }
        let last_length: u32 = (total - before_last) as u32;
        let mut infos: Vec<PieceInfo> = Vec::with_capacity(count);
        let mut i: usize = 0;
        while i < count
            invariant
                i <= count,
                count == pieces@.len(),
                0 < count <= u32::MAX,
                0 < piece_length <= u32::MAX,
                infos@.len() == i,
                last_length == total - (count - 1) * piece_length,
                total == self.content_length(),
                pieces@ == self.spec_pieces(),
                piece_length == self.spec_piece_length(),
                forall|j: int|
                    0 <= j < i ==> (#[trigger] infos@[j]).piece_id == j && infos@[j].hash
                        == pieces@[j] && infos@[j].length == piece_length_of(
                        total as nat,
                        piece_length as nat,
                        count as nat,
                        j,
                    ),
            decreases count - i,
        {
            let length: u32 = if i + 1 == count {
                last_length
            } else {
                piece_length as u32
            };
            infos.push(PieceInfo { piece_id: i as u32, hash: pieces[i], length });
            i += 1;
        }
        Ok(infos)
    }
}

} // verus!
