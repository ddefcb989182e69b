//! The announce request: what this client tells the tracker about itself,
//! written out as the query of the announce URL.

use crate::error::MetainfoError;
use crate::torrent::{InfoHash, PeerId};
use vstd::prelude::*;
use vstd::string::*;

verus! {

/// What a tracker is asked about: a torrent by its info hash, and how much
/// of it is wanted. Implemented by whatever describes a torrent.
pub trait Requestable {
    /// The info hash of the torrent, or why there is none.
    fn get_info_hash(&self) -> Result<InfoHash, MetainfoError>;

    /// The number of bytes to download.
    fn get_request_length(&self) -> usize;
}

/// An announce request.
#[derive(Debug, Clone)]
pub struct TrackerRequest {
    /// The SHA-1 digest of the info dictionary.
    pub info_hash: InfoHash,
    /// The 20-byte id of this client.
    pub peer_id: PeerId,
    /// The port that this client gives as its own.
    pub port: u16,
    /// The number of bytes uploaded so far.
    pub uploaded: usize,
    /// The number of bytes downloaded so far.
    pub downloaded: usize,
    /// The number of bytes still to download.
    pub left: usize,
    /// Whether the compact peer list is asked for: 1 in every request made by `new`.
    pub compact: u8,
}

/// Whether a byte stands for itself in a URL: ASCII letters and digits, and
/// `-`, `.`, `_`, `~`.
pub open spec fn is_unreserved(byte: u8) -> bool {
    ||| 0x30 <= byte <= 0x39
    ||| 0x41 <= byte <= 0x5a
    ||| 0x61 <= byte <= 0x7a
    ||| byte == 0x2d
    ||| byte == 0x2e
    ||| byte == 0x5f
    ||| byte == 0x7e
}

/// The upper-case hexadecimal digit for `value`, which is below 16.
pub open spec fn hex_digit(value: int) -> char {
    if value < 10 {
        (0x30 + value) as char
    } else {
        (0x41 + value - 10) as char
    }
}

/// One byte as it stands in a URL: itself, or `%` and two hexadecimal digits.
pub open spec fn percent_encoded_byte(byte: u8) -> Seq<char> {
    if is_unreserved(byte) {
        seq![byte as char]
    } else {
        seq!['%', hex_digit(byte as int / 16), hex_digit(byte as int % 16)]
    }
}

/// A byte string as it stands in a URL.
pub open spec fn percent_encoded(bytes: Seq<u8>) -> Seq<char>
    decreases bytes.len(),
{
    if bytes.len() == 0 {
        Seq::empty()
    } else {
        percent_encoded(bytes.drop_last()) + percent_encoded_byte(bytes.last())
    }
}

/// `urlencoding::encode_binary`: every byte but the unreserved ones is
/// replaced by `%` and its two upper-case hexadecimal digits.
#[verifier::external_body]
fn url_encode(bytes: &[u8]) -> (encoded: String)
    ensures
        encoded@ == percent_encoded(bytes@),
{
    urlencoding::encode_binary(bytes).into_owned()
}

/// The character of a decimal digit.
pub open spec fn digit_char(digit: int) -> char {
    if digit == 0 {
        '0'
    } else if digit == 1 {
        '1'
    } else if digit == 2 {
        '2'
    } else if digit == 3 {
        '3'
    } else if digit == 4 {
        '4'
    } else if digit == 5 {
        '5'
    } else if digit == 6 {
        '6'
    } else if digit == 7 {
        '7'
    } else if digit == 8 {
        '8'
    } else {
        '9'
    }
}

/// A number in decimal, without leading zeros.
pub open spec fn decimal(n: nat) -> Seq<char>
    decreases n,
{
    if n < 10 {
        seq![digit_char(n as int)]
    } else {
        decimal(n / 10).push(digit_char((n % 10) as int))
    }
}

/// The text of one decimal digit.
fn digit_str(digit: u64) -> (text: &'static str)
    requires
        digit < 10,
    ensures
        text@ == seq![digit_char(digit as int)],
{
    proof {
        reveal_strlit("0");
        reveal_strlit("1");
        reveal_strlit("2");
        reveal_strlit("3");
        reveal_strlit("4");
        reveal_strlit("5");
        reveal_strlit("6");
        reveal_strlit("7");
        reveal_strlit("8");
        reveal_strlit("9");
    }
    let text = if digit == 0 {
        "0"
    } else if digit == 1 {
        "1"
    } else if digit == 2 {
        "2"
    } else if digit == 3 {
        "3"
    } else if digit == 4 {
        "4"
    } else if digit == 5 {
        "5"
    } else if digit == 6 {
        "6"
    } else if digit == 7 {
        "7"
    } else if digit == 8 {
        "8"
    } else {
        "9"
    };
    assert(text@ =~= seq![digit_char(digit as int)]);
    text
}

/// Appends `n` in decimal.
fn append_decimal(text: &mut String, n: u64)
    ensures
        final(text)@ == old(text)@ + decimal(n as nat),
    decreases n,
{
    if n >= 10 {
        append_decimal(text, n / 10);
    }
    text.append(digit_str(n % 10));
    assert(text@ =~= old(text)@ + decimal(n as nat));
}

impl TrackerRequest {
    /// The first request for a torrent with this info hash and `left` bytes
    /// of content: nothing uploaded or downloaded, all of it left, the compact
    /// peer list asked for.
    pub fn first(info_hash: InfoHash, peer_id: PeerId, port: u16, left: usize) -> (request: Self)
        ensures
            request == (TrackerRequest {
                info_hash,
                peer_id,
                port,
                uploaded: 0,
                downloaded: 0,
                left,
                compact: 1,
            }),
    {
        Self { info_hash, peer_id, port, downloaded: 0, uploaded: 0, left, compact: 1 }
    }

    /// The first request for a torrent, given what it answered when asked
    /// for its info hash: with an info hash, the request of `first`; with an
    /// error, that error.
    pub fn from_answer(
        answer: Result<InfoHash, MetainfoError>,
        peer_id: PeerId,
        port: u16,
        left: usize,
    ) -> (result: Result<Self, MetainfoError>)
        ensures
            result == (match answer {
                Ok(info_hash) => Ok(
                    TrackerRequest {
                        info_hash,
                        peer_id,
                        port,
                        uploaded: 0,
                        downloaded: 0,
                        left,
                        compact: 1,
                    },
                ),
                Err(error) => Err(error),
            }),
    {
        match answer {
            Ok(info_hash) => Ok(TrackerRequest::first(info_hash, peer_id, port, left)),
            Err(error) => Err(error),
        }
    }

    /// The first request for the torrent that `requestable` describes: see
    /// `from_answer`. What the info hash and the length are is for
    /// `requestable` to say; the length is asked for only where there is an
    /// info hash.
    pub fn new<R: Requestable>(peer_id: PeerId, port: u16, requestable: &R) -> (result: Result<
        Self,
        MetainfoError,
    >)
        ensures
            result matches Ok(request) ==> request.peer_id == peer_id && request.port == port
                && request.uploaded == 0 && request.downloaded == 0 && request.compact == 1,
    {
        let answer = requestable.get_info_hash();
        let left = if answer.is_ok() {
            requestable.get_request_length()
        } else {
            0
        };
        TrackerRequest::from_answer(answer, peer_id, port, left)
    }

    /// The query of the announce URL.
    pub open spec fn url_query(&self) -> Seq<char> {
        "info_hash="@ + percent_encoded(self.info_hash@) + "&peer_id="@ + percent_encoded(
            self.peer_id@,
        ) + "&port="@ + decimal(self.port as nat) + "&uploaded="@ + decimal(self.uploaded as nat)
            + "&downloaded="@ + decimal(self.downloaded as nat) + "&left="@ + decimal(
            self.left as nat,
        ) + "&compact="@ + decimal(self.compact as nat)
    }

    /// The query of the announce URL: `info_hash`, `peer_id`, `port`,
    /// `uploaded`, `downloaded`, `left` and `compact`, in this order, the two
    /// identifiers percent-encoded byte by byte and the numbers in decimal.
    pub fn to_url_query(&self) -> (query: String)
        ensures
            query@ == self.url_query(),
    {
        let mut query = String::from_str("info_hash=");
        let info_hash = url_encode(self.info_hash.as_bytes().as_slice());
        query.append(info_hash.as_str());
        query.append("&peer_id=");
        let peer_id = url_encode(self.peer_id.as_bytes().as_slice());
        query.append(peer_id.as_str());
        query.append("&port=");
        append_decimal(&mut query, self.port as u64);
        query.append("&uploaded=");
        append_decimal(&mut query, self.uploaded as u64);
        query.append("&downloaded=");
        append_decimal(&mut query, self.downloaded as u64);
        query.append("&left=");
        append_decimal(&mut query, self.left as u64);
        query.append("&compact=");
        append_decimal(&mut query, self.compact as u64);
        query
    }
}

} // verus!
