//! A metainfo file as a whole: where to announce, and what to download.

use super::download_info::DownloadInfo;
use super::tracker_url::TrackerUrl;
use super::{sha1_digest, sha1_of};
use crate::error::MetainfoError;
use crate::torrent::{InfoHash, PeerId};
use crate::tracker::request::{Requestable, TrackerRequest};
use vstd::prelude::*;

verus! {

/// What a metainfo file holds.
#[derive(Debug)]
pub struct Metainfo {
    pub announce: TrackerUrl,
    pub file_info: DownloadInfo,
    /// The bencoded `info` dictionary, as the info hash is taken of it.
    pub info_bytes: Vec<u8>,
    pub announce_list: Option<Vec<Vec<String>>>,
    /// Seconds since the Unix epoch.
    pub creation_date: Option<u64>,
    pub created_by: Option<String>,
    pub comment: Option<String>,
    pub encoding: Option<String>,
}

impl Metainfo {
    /// The content length, or `usize::MAX` where it is above that.
    pub open spec fn request_length(&self) -> usize {
        if self.file_info.content_length() <= usize::MAX {
            self.file_info.content_length() as usize
        } else {
            usize::MAX
        }
    }
}

impl Requestable for Metainfo {
    /// The SHA-1 digest of the bencoded `info` dictionary. Never fails.
    fn get_info_hash(&self) -> (result: Result<InfoHash, MetainfoError>)
        ensures
            result.is_ok(),
            result.unwrap()@ == sha1_digest(self.info_bytes@),
    {
        Ok(InfoHash::new(sha1_of(self.info_bytes.as_slice())))
    }

    /// The content length, or `usize::MAX` where it is above that.
    fn get_request_length(&self) -> (length: usize)
        ensures
            length == self.request_length(),
    {
        self.file_info.get_request_length()
    }
}

impl Metainfo {
    /// The first announce request for this torrent.
    pub fn tracker_request(&self, peer_id: PeerId, port: u16) -> (request: TrackerRequest)
        ensures
            request.info_hash@ == sha1_digest(self.info_bytes@),
            request.peer_id == peer_id,
            request.port == port,
            request.uploaded == 0,
            request.downloaded == 0,
            request.left == self.request_length(),
            request.compact == 1,
    {
        let info_hash = InfoHash::new(sha1_of(self.info_bytes.as_slice()));
        TrackerRequest::first(info_hash, peer_id, port, self.get_request_length())
    }
}

} // verus!
