//! Length-delimited framing of peer messages.
//!
//! A frame is a 4-byte big-endian length followed by that many payload bytes;
//! a zero length is a keepalive. A payload is a 1-byte tag and the fields of
//! its variant, every integer big-endian.

use crate::error::ProtocolError;
use crate::torrent::bitfield::{lemma_unpack_pack, pack_bits, pad_to_byte, unpack_bits};
use crate::torrent::Bitfield;
use vstd::prelude::*;

verus! {

/// The largest payload length that the decoder accepts: two mebibytes.
pub const MAX_FRAME_SIZE: usize = 0x20_0000;

/// The number of bytes in the length prefix of a frame.
pub const LENGTH_PREFIX_SIZE: usize = 4;

pub const TAG_CHOKE: u8 = 0;

pub const TAG_UNCHOKE: u8 = 1;

pub const TAG_INTERESTED: u8 = 2;

pub const TAG_NOT_INTERESTED: u8 = 3;

pub const TAG_HAVE: u8 = 4;

pub const TAG_BITFIELD: u8 = 5;

pub const TAG_REQUEST: u8 = 6;

pub const TAG_PIECE: u8 = 7;

pub const TAG_CANCEL: u8 = 8;

/// A message of the peer wire protocol.
#[derive(Debug, Clone, PartialEq, Eq)]
pub enum PeerMessage {
    Choke,
    Unchoke,
    Interested,
    NotInterested,
    Have(u32),
    Bitfield(Bitfield),
    Request { index: u32, begin: u32, length: u32 },
    Piece { index: u32, begin: u32, piece: Vec<u8> },
    Cancel { index: u32, begin: u32, length: u32 },
}

/// What a message says, with its bitfield as bits and its block as bytes.
pub enum PeerMessageView {
    Choke,
    Unchoke,
    Interested,
    NotInterested,
    Have(u32),
    Bitfield(Seq<bool>),
    Request { index: u32, begin: u32, length: u32 },
    Piece { index: u32, begin: u32, piece: Seq<u8> },
    Cancel { index: u32, begin: u32, length: u32 },
}

impl View for PeerMessage {
    type V = PeerMessageView;

    open spec fn view(&self) -> PeerMessageView {
        match *self {
            PeerMessage::Choke => PeerMessageView::Choke,
            PeerMessage::Unchoke => PeerMessageView::Unchoke,
            PeerMessage::Interested => PeerMessageView::Interested,
            PeerMessage::NotInterested => PeerMessageView::NotInterested,
            PeerMessage::Have(index) => PeerMessageView::Have(index),
            PeerMessage::Bitfield(bitfield) => PeerMessageView::Bitfield(bitfield@),
            PeerMessage::Request { index, begin, length } => PeerMessageView::Request {
                index,
                begin,
                length,
            },
            PeerMessage::Piece { index, begin, piece } => PeerMessageView::Piece {
                index,
                begin,
                piece: piece@,
            },
            PeerMessage::Cancel { index, begin, length } => PeerMessageView::Cancel {
                index,
                begin,
                length,
            },
        }
    }
}

/// The tag byte that opens the payload of a message.
pub open spec fn tag_of(message: PeerMessageView) -> u8 {
    match message {
        PeerMessageView::Choke => TAG_CHOKE,
        PeerMessageView::Unchoke => TAG_UNCHOKE,
        PeerMessageView::Interested => TAG_INTERESTED,
        PeerMessageView::NotInterested => TAG_NOT_INTERESTED,
        PeerMessageView::Have(_) => TAG_HAVE,
        PeerMessageView::Bitfield(_) => TAG_BITFIELD,
        PeerMessageView::Request { .. } => TAG_REQUEST,
        PeerMessageView::Piece { .. } => TAG_PIECE,
        PeerMessageView::Cancel { .. } => TAG_CANCEL,
    }
}

/// The four bytes of `value`, most significant first.
pub open spec fn be_bytes(value: u32) -> Seq<u8> {
    seq![
        (value / 0x100_0000) as u8,
        (value / 0x1_0000 % 0x100) as u8,
        (value / 0x100 % 0x100) as u8,
        (value % 0x100) as u8,
    ]
}

/// The number that the first four bytes of `bytes` spell, most significant first.
pub open spec fn be_value(bytes: Seq<u8>) -> u32 {
    (bytes[0] * 0x100_0000 + bytes[1] * 0x1_0000 + bytes[2] * 0x100 + bytes[3]) as u32
}

/// The fields of a message as they follow its tag on the wire.
pub open spec fn fields_of(message: PeerMessageView) -> Seq<u8> {
    match message {
        PeerMessageView::Choke => Seq::empty(),
        PeerMessageView::Unchoke => Seq::empty(),
        PeerMessageView::Interested => Seq::empty(),
        PeerMessageView::NotInterested => Seq::empty(),
        PeerMessageView::Have(index) => be_bytes(index),
        PeerMessageView::Bitfield(bits) => pack_bits(bits),
        PeerMessageView::Request { index, begin, length } => be_bytes(index) + be_bytes(begin)
            + be_bytes(length),
        PeerMessageView::Piece { index, begin, piece } => be_bytes(index) + be_bytes(begin)
            + piece,
        PeerMessageView::Cancel { index, begin, length } => be_bytes(index) + be_bytes(begin)
            + be_bytes(length),
    }
}

/// The payload of a message: its tag, then its fields.
pub open spec fn payload_of(message: PeerMessageView) -> Seq<u8> {
    seq![tag_of(message)] + fields_of(message)
}

/// Whether a message can be framed: its payload length fits the length prefix.
pub open spec fn encodable(message: PeerMessageView) -> bool {
    payload_of(message).len() <= u32::MAX
}

/// The frame of a message: the payload length in four bytes, then the payload.
pub open spec fn frame_of(message: PeerMessageView) -> Seq<u8> {
    be_bytes(payload_of(message).len() as u32) + payload_of(message)
}

/// The frame of a keepalive: a zero length and nothing else.
pub open spec fn keepalive_frame() -> Seq<u8> {
    be_bytes(0)
}

/// The message that a non-empty payload spells, or the protocol error in it.
/// Bytes after the fixed part of a fixed-size message are ignored.
pub open spec fn parse_payload(payload: Seq<u8>) -> Result<PeerMessageView, ProtocolError> {
    let tag = payload[0];
    let fields = payload.skip(1);
    if tag == TAG_CHOKE {
        Ok(PeerMessageView::Choke)
    } else if tag == TAG_UNCHOKE {
        Ok(PeerMessageView::Unchoke)
    } else if tag == TAG_INTERESTED {
        Ok(PeerMessageView::Interested)
    } else if tag == TAG_NOT_INTERESTED {
        Ok(PeerMessageView::NotInterested)
    } else if tag == TAG_HAVE {
        if fields.len() < 4 {
            Err(ProtocolError::PayloadTooShort)
        } else {
            Ok(PeerMessageView::Have(be_value(fields)))
        }
    } else if tag == TAG_BITFIELD {
        Ok(PeerMessageView::Bitfield(unpack_bits(fields)))
    } else if tag == TAG_REQUEST {
        if fields.len() < 12 {
            Err(ProtocolError::PayloadTooShort)
        } else {
            Ok(
                PeerMessageView::Request {
                    index: be_value(fields),
                    begin: be_value(fields.skip(4)),
                    length: be_value(fields.skip(8)),
                },
            )
        }
    } else if tag == TAG_PIECE {
        if fields.len() < 8 {
            Err(ProtocolError::PayloadTooShort)
        } else {
            Ok(
                PeerMessageView::Piece {
                    index: be_value(fields),
                    begin: be_value(fields.skip(4)),
                    piece: fields.skip(8),
                },
            )
        }
    } else if tag == TAG_CANCEL {
        if fields.len() < 12 {
            Err(ProtocolError::PayloadTooShort)
        } else {
            Ok(
                PeerMessageView::Cancel {
                    index: be_value(fields),
                    begin: be_value(fields.skip(4)),
                    length: be_value(fields.skip(8)),
                },
            )
        }
    } else {
        Err(ProtocolError::UnknownTag)
    }
}

/// What one decoding step makes of a buffer.
pub struct Decoded {
    /// The buffer after the step.
    pub rest: Seq<u8>,
    /// The message that surfaced, `None` where none did, or the protocol error.
    pub outcome: Result<Option<PeerMessageView>, ProtocolError>,
}

/// One decoding step on the bytes received so far.
///
/// Less than a whole frame: nothing surfaces and nothing is consumed. A length
/// above `MAX_FRAME_SIZE`: an error, known from the prefix alone. A keepalive:
/// consumed, nothing surfaces. Otherwise the frame is consumed and its payload
/// parsed.
pub open spec fn decode_step(src: Seq<u8>) -> Decoded {
    if src.len() < LENGTH_PREFIX_SIZE {
        Decoded { rest: src, outcome: Ok(None) }
    } else {
        let len = be_value(src) as int;
        if len > MAX_FRAME_SIZE {
            Decoded { rest: src, outcome: Err(ProtocolError::FrameTooLarge) }
        } else if src.len() < LENGTH_PREFIX_SIZE + len {
            Decoded { rest: src, outcome: Ok(None) }
        } else if len == 0 {
            Decoded { rest: src.skip(LENGTH_PREFIX_SIZE as int), outcome: Ok(None) }
        } else {
            let payload = src.subrange(LENGTH_PREFIX_SIZE as int, LENGTH_PREFIX_SIZE + len);
            Decoded {
                rest: src.skip(LENGTH_PREFIX_SIZE + len),
                outcome: match parse_payload(payload) {
                    Ok(message) => Ok(Some(message)),
                    Err(error) => Err(error),
                },
            }
        }
    }
}

/// What a decoding result says, with the message taken by its view.
pub open spec fn outcome_view(result: Result<Option<PeerMessage>, ProtocolError>) -> Result<
    Option<PeerMessageView>,
    ProtocolError,
> {
    match result {
        Ok(Some(message)) => Ok(Some(message@)),
        Ok(None) => Ok(None),
        Err(error) => Err(error),
    }
}

/// The message as it comes back from the wire: a bitfield is padded with zero
/// bits to a whole number of bytes, everything else is unchanged.
pub open spec fn on_the_wire(message: PeerMessageView) -> PeerMessageView {
    match message {
        PeerMessageView::Bitfield(bits) => PeerMessageView::Bitfield(pad_to_byte(bits)),
        _ => message,
    }
}

/// Reading back the four bytes of a number gives the number.
pub proof fn lemma_be_round_trip(value: u32)
    ensures
        be_bytes(value).len() == 4,
        be_value(be_bytes(value)) == value,
        forall|rest: Seq<u8>| be_value(#[trigger] (be_bytes(value) + rest)) == value,
{
    let b = be_bytes(value);
    assert(b[0] * 0x100_0000 + b[1] * 0x1_0000 + b[2] * 0x100 + b[3] == value);
    assert forall|rest: Seq<u8>| be_value(#[trigger] (be_bytes(value) + rest)) == value by {
        let s = be_bytes(value) + rest;
        assert(s[0] == b[0] && s[1] == b[1] && s[2] == b[2] && s[3] == b[3]);
    }
}

/// What a parsing result says, with the message taken by its view.
pub open spec fn parsed_view(result: Result<PeerMessage, ProtocolError>) -> Result<
    PeerMessageView,
    ProtocolError,
> {
    match result {
        Ok(message) => Ok(message@),
        Err(error) => Err(error),
    }
}

/// Appends the four bytes of `value`, most significant first.
fn put_u32(dst: &mut Vec<u8>, value: u32)
    ensures
        final(dst)@ == old(dst)@ + be_bytes(value),
{
    dst.push((value / 0x100_0000) as u8);
    dst.push((value / 0x1_0000 % 0x100) as u8);
    dst.push((value / 0x100 % 0x100) as u8);
    dst.push((value % 0x100) as u8);
    assert(dst@ =~= old(dst)@ + be_bytes(value));
}

/// Reads the big-endian number in the four bytes at `at`.
fn get_u32(src: &Vec<u8>, at: usize) -> (value: u32)
    requires
        at + 4 <= src.len(),
    ensures
        value == be_value(src@.skip(at as int)),
{
    let b0: u32 = src[at] as u32;
    let b1: u32 = src[at + 1] as u32;
    let b2: u32 = src[at + 2] as u32;
    let b3: u32 = src[at + 3] as u32;
    b0 * 0x100_0000 + b1 * 0x1_0000 + b2 * 0x100 + b3
}

/// Takes the first `n` bytes off the front of `src`.
fn take_front(src: &mut Vec<u8>, n: usize) -> (front: Vec<u8>)
    requires
        n <= old(src)@.len(),
    ensures
        front@ == old(src)@.take(n as int),
        final(src)@ == old(src)@.skip(n as int),
{
    let mut other = src.split_off(n);
    core::mem::swap(src, &mut other);
    other
}

impl PeerMessage {
    /// The tag byte that opens the payload of this message.
    pub fn tag(&self) -> (tag: u8)
        ensures
            tag == tag_of(self@),
    {
        match self {
            PeerMessage::Choke => TAG_CHOKE,
            PeerMessage::Unchoke => TAG_UNCHOKE,
            PeerMessage::Interested => TAG_INTERESTED,
            PeerMessage::NotInterested => TAG_NOT_INTERESTED,
            PeerMessage::Have(_) => TAG_HAVE,
            PeerMessage::Bitfield(_) => TAG_BITFIELD,
            PeerMessage::Request { .. } => TAG_REQUEST,
            PeerMessage::Piece { .. } => TAG_PIECE,
            PeerMessage::Cancel { .. } => TAG_CANCEL,
        }
    }
}

/// Parses the three numbers that `REQUEST` and `CANCEL` carry.
fn decode_triple_variant(fields: &Vec<u8>) -> (triple: Result<(u32, u32, u32), ProtocolError>)
    ensures
        fields@.len() < 12 ==> triple == Err::<(u32, u32, u32), _>(ProtocolError::PayloadTooShort),
        fields@.len() >= 12 ==> triple == Ok::<_, ProtocolError>(
            (be_value(fields@), be_value(fields@.skip(4)), be_value(fields@.skip(8))),
        ),
{
    if fields.len() < 12 {
        return Err(ProtocolError::PayloadTooShort);
    }
    assert(fields@.skip(0) =~= fields@);
    Ok((get_u32(fields, 0), get_u32(fields, 4), get_u32(fields, 8)))
}

/// Parses one non-empty payload.
fn decode_payload(payload: Vec<u8>) -> (result: Result<PeerMessage, ProtocolError>)
    requires
        0 < payload@.len() <= MAX_FRAME_SIZE,
    ensures
        parsed_view(result) == parse_payload(payload@),
{
    let mut head = payload;
    let tag = head[0];
    let mut fields = head.split_off(1);
    assert(fields@ =~= payload@.skip(1));
    if tag == TAG_CHOKE {
        Ok(PeerMessage::Choke)
    } else if tag == TAG_UNCHOKE {
        Ok(PeerMessage::Unchoke)
    } else if tag == TAG_INTERESTED {
        Ok(PeerMessage::Interested)
    } else if tag == TAG_NOT_INTERESTED {
        Ok(PeerMessage::NotInterested)
    } else if tag == TAG_HAVE {
        if fields.len() < 4 {
            return Err(ProtocolError::PayloadTooShort);
        }
        assert(fields@.skip(0) =~= fields@);
        Ok(PeerMessage::Have(get_u32(&fields, 0)))
    } else if tag == TAG_BITFIELD {
        Ok(PeerMessage::Bitfield(Bitfield::from_vec(fields)))
    } else if tag == TAG_REQUEST {
        match decode_triple_variant(&fields) {
            Ok((index, begin, length)) => Ok(PeerMessage::Request { index, begin, length }),
            Err(error) => Err(error),
        }
    } else if tag == TAG_PIECE {
        if fields.len() < 8 {
            return Err(ProtocolError::PayloadTooShort);
        }
        assert(fields@.skip(0) =~= fields@);
        let index = get_u32(&fields, 0);
        let begin = get_u32(&fields, 4);
        let ghost all_fields = fields@;
        let piece = fields.split_off(8);
        assert(piece@ =~= all_fields.skip(8));
        Ok(PeerMessage::Piece { index, begin, piece })
    } else if tag == TAG_CANCEL {
        match decode_triple_variant(&fields) {
            Ok((index, begin, length)) => Ok(PeerMessage::Cancel { index, begin, length }),
            Err(error) => Err(error),
        }
    } else {
        Err(ProtocolError::UnknownTag)
    }
}

/// Frames peer messages into a byte stream and back.
#[derive(Debug, Clone)]
pub struct PeerMessageCodec {}

impl PeerMessageCodec {
    pub fn new() -> Self {
        Self {  }
    }

    /// One decoding step on the bytes received so far: see `decode_step`.
    /// `Ok(None)` asks for more bytes, or reports a keepalive that was dropped.
    pub fn decode(&mut self, src: &mut Vec<u8>) -> (result: Result<
        Option<PeerMessage>,
        ProtocolError,
    >)
        ensures
            final(src)@ == decode_step(old(src)@).rest,
            outcome_view(result) == decode_step(old(src)@).outcome,
    {
        if src.len() < LENGTH_PREFIX_SIZE {
            return Ok(None);
        }
        assert(src@.skip(0) =~= src@);
        let len = get_u32(src, 0) as usize;
        if len > MAX_FRAME_SIZE {
            return Err(ProtocolError::FrameTooLarge);
        }
        if src.len() - LENGTH_PREFIX_SIZE < len {
            return Ok(None);
        }
        let mut frame = take_front(src, LENGTH_PREFIX_SIZE + len);
        if len == 0 {
            return Ok(None);
        }
        let payload = frame.split_off(LENGTH_PREFIX_SIZE);
        assert(payload@ =~= old(src)@.subrange(
            LENGTH_PREFIX_SIZE as int,
            LENGTH_PREFIX_SIZE + len,
        ));
        match decode_payload(payload) {
            Ok(message) => Ok(Some(message)),
            Err(error) => Err(error),
        }
    }

    /// Appends the frame of `item` to `dst`. Fails, and leaves `dst` as it
    /// was, only where the payload length does not fit the length prefix.
    pub fn encode(&mut self, item: PeerMessage, dst: &mut Vec<u8>) -> (result: Result<
        (),
        ProtocolError,
    >)
        ensures
            encodable(item@) ==> result.is_ok() && final(dst)@ == old(dst)@ + frame_of(item@),
            !encodable(item@) ==> result == Err::<(), _>(ProtocolError::FrameTooLarge)
                && final(dst)@ == old(dst)@,
    {
        let tag = item.tag();
        let ghost message = item@;
        match item {
            PeerMessage::Choke
            | PeerMessage::Unchoke
            | PeerMessage::Interested
            | PeerMessage::NotInterested => {
                put_u32(dst, 1);
                dst.push(tag);
                assert(dst@ =~= old(dst)@ + frame_of(message));
            },
            PeerMessage::Have(index) => {
                put_u32(dst, 5);
                dst.push(tag);
                put_u32(dst, index);
                assert(dst@ =~= old(dst)@ + frame_of(message));
            },
            PeerMessage::Request { index, begin, length }
            | PeerMessage::Cancel { index, begin, length } => {
                put_u32(dst, 13);
                dst.push(tag);
                put_u32(dst, index);
                put_u32(dst, begin);
                put_u32(dst, length);
                assert(dst@ =~= old(dst)@ + frame_of(message));
            },
            PeerMessage::Piece { index, begin, piece } => {
                if piece.len() > 0xffff_ffff - 9 {
                    return Err(ProtocolError::FrameTooLarge);
                }
                put_u32(dst, (9 + piece.len()) as u32);
                dst.push(tag);
                put_u32(dst, index);
                put_u32(dst, begin);
                dst.extend_from_slice(piece.as_slice());
                assert(dst@ =~= old(dst)@ + frame_of(message));
            },
            PeerMessage::Bitfield(bitfield) => {
                let bytes = bitfield.to_bytes();
                if bytes.len() > 0xffff_ffff - 1 {
                    return Err(ProtocolError::FrameTooLarge);
                }
                put_u32(dst, (1 + bytes.len()) as u32);
                dst.push(tag);
                dst.extend_from_slice(bytes.as_slice());
                assert(dst@ =~= old(dst)@ + frame_of(message));
            },
        }
        Ok(())
    }
}

/// The length prefix of a frame counts the payload: one byte of tag and the fields.
pub proof fn lemma_frame_length(message: PeerMessageView)
    requires
        encodable(message),
    ensures
        payload_of(message).len() == 1 + fields_of(message).len(),
        frame_of(message).len() == LENGTH_PREFIX_SIZE + payload_of(message).len(),
        be_value(frame_of(message)) == payload_of(message).len(),
        frame_of(message).skip(LENGTH_PREFIX_SIZE as int) == payload_of(message),
{
    lemma_be_round_trip(payload_of(message).len() as u32);
    assert(frame_of(message).skip(LENGTH_PREFIX_SIZE as int) =~= payload_of(message));
}

/// Parsing the payload of a message gives the message as it comes back from the wire.
pub proof fn lemma_parse_payload_of(message: PeerMessageView)
    ensures
        parse_payload(payload_of(message)) == Ok::<_, ProtocolError>(on_the_wire(message)),
{
    let payload = payload_of(message);
    let fields = payload.skip(1);
    assert(fields =~= fields_of(message));
    match message {
        PeerMessageView::Have(index) => {
            lemma_be_round_trip(index);
        },
        PeerMessageView::Bitfield(bits) => {
            lemma_unpack_pack(bits);
        },
        PeerMessageView::Request { index, begin, length } => {
            lemma_triple(index, begin, length, Seq::empty());
            assert(fields =~= be_bytes(index) + be_bytes(begin) + be_bytes(length)
                + Seq::<u8>::empty());
        },
        PeerMessageView::Cancel { index, begin, length } => {
            lemma_triple(index, begin, length, Seq::empty());
            assert(fields =~= be_bytes(index) + be_bytes(begin) + be_bytes(length)
                + Seq::<u8>::empty());
        },
        PeerMessageView::Piece { index, begin, piece } => {
            lemma_be_round_trip(index);
            lemma_be_round_trip(begin);
            assert(fields =~= be_bytes(index) + (be_bytes(begin) + piece));
            assert(fields.skip(4) =~= be_bytes(begin) + piece);
            assert(fields.skip(8) =~= piece);
        },
        _ => {},
    }
}

/// Three numbers written one after the other, with anything behind them, read back as written.
proof fn lemma_triple(first: u32, second: u32, third: u32, tail: Seq<u8>)
    ensures
        ({
            let fields = be_bytes(first) + be_bytes(second) + be_bytes(third) + tail;
            &&& fields.len() == 12 + tail.len()
            &&& be_value(fields) == first
            &&& be_value(fields.skip(4)) == second
            &&& be_value(fields.skip(8)) == third
            &&& fields.skip(12) == tail
        }),
{
    let fields = be_bytes(first) + be_bytes(second) + be_bytes(third) + tail;
    lemma_be_round_trip(first);
    lemma_be_round_trip(second);
    lemma_be_round_trip(third);
    assert(fields =~= be_bytes(first) + (be_bytes(second) + be_bytes(third) + tail));
    assert(fields.skip(4) =~= be_bytes(second) + (be_bytes(third) + tail));
    assert(fields.skip(8) =~= be_bytes(third) + tail);
    assert(fields.skip(12) =~= tail);
}

/// Codec round trip: a decoding step on the frame of a message, with any
/// bytes behind it, consumes exactly that frame and gives the message back. A
/// bitfield comes back padded with zero bits to a whole byte, so unchanged
/// where its length is a multiple of eight.
pub proof fn lemma_round_trip(message: PeerMessageView, tail: Seq<u8>)
    requires
        payload_of(message).len() <= MAX_FRAME_SIZE,
    ensures
        decode_step(frame_of(message) + tail) == (Decoded {
            rest: tail,
            outcome: Ok(Some(on_the_wire(message))),
        }),
        !(message is Bitfield) ==> on_the_wire(message) == message,
        message is Bitfield && message->Bitfield_0.len() % 8 == 0 ==> on_the_wire(message)
            == message,
{
    let frame = frame_of(message);
    let src = frame + tail;
    let len = payload_of(message).len();
    lemma_frame_length(message);
    lemma_be_round_trip(len as u32);
    assert(src =~= be_bytes(len as u32) + (payload_of(message) + tail));
    assert(be_value(src) == len);
    assert(src.subrange(LENGTH_PREFIX_SIZE as int, LENGTH_PREFIX_SIZE + len) =~= payload_of(
        message,
    ));
    assert(src.skip(LENGTH_PREFIX_SIZE + len) =~= tail);
    lemma_parse_payload_of(message);
    if message is Bitfield {
        lemma_unpack_pack(message->Bitfield_0);
    }
}

/// A keepalive is consumed without surfacing as a message.
pub proof fn lemma_keepalive_dropped(tail: Seq<u8>)
    ensures
        keepalive_frame().len() == LENGTH_PREFIX_SIZE,
        decode_step(keepalive_frame() + tail) == (Decoded { rest: tail, outcome: Ok(None) }),
{
    lemma_be_round_trip(0);
    let src = keepalive_frame() + tail;
    assert(be_value(src) == 0);
    assert(src.skip(LENGTH_PREFIX_SIZE as int) =~= tail);
}

/// Keepalive transparency: with a keepalive between two frames, three decoding
/// steps give the first message, nothing, and the second message, and leave
/// what follows.
pub proof fn lemma_keepalive_transparent(
    before: PeerMessageView,
    after: PeerMessageView,
    tail: Seq<u8>,
)
    requires
        payload_of(before).len() <= MAX_FRAME_SIZE,
        payload_of(after).len() <= MAX_FRAME_SIZE,
    ensures
        ({
            let stream = frame_of(before) + keepalive_frame() + frame_of(after) + tail;
            let first = decode_step(stream);
            let second = decode_step(first.rest);
            let third = decode_step(second.rest);
            &&& first.outcome == Ok::<_, ProtocolError>(Some(on_the_wire(before)))
            &&& second.outcome == Ok::<Option<PeerMessageView>, ProtocolError>(None)
            &&& third.outcome == Ok::<_, ProtocolError>(Some(on_the_wire(after)))
            &&& third.rest == tail
        }),
{
    let stream = frame_of(before) + keepalive_frame() + frame_of(after) + tail;
    let after_first = keepalive_frame() + (frame_of(after) + tail);
    assert(stream =~= frame_of(before) + after_first);
    lemma_round_trip(before, after_first);
    lemma_keepalive_dropped(frame_of(after) + tail);
    lemma_round_trip(after, tail);
}

/// Oversized rejection: a length prefix above `MAX_FRAME_SIZE` is a protocol
/// error whatever follows it, and the buffer is left alone.
pub proof fn lemma_oversized_rejected(src: Seq<u8>)
    requires
        src.len() >= LENGTH_PREFIX_SIZE,
        be_value(src) > MAX_FRAME_SIZE,
    ensures
        decode_step(src) == (Decoded { rest: src, outcome: Err(ProtocolError::FrameTooLarge) }),
{
}

/// A frame that has not arrived whole surfaces nothing and is not consumed.
pub proof fn lemma_partial_frame_waits(message: PeerMessageView, received: int)
    requires
        payload_of(message).len() <= MAX_FRAME_SIZE,
        0 <= received < frame_of(message).len(),
    ensures
        decode_step(frame_of(message).take(received)) == (Decoded {
            rest: frame_of(message).take(received),
            outcome: Ok(None),
        }),
{
    let src = frame_of(message).take(received);
    lemma_frame_length(message);
    if received >= LENGTH_PREFIX_SIZE {
        let frame = frame_of(message);
        assert(src[0] == frame[0] && src[1] == frame[1] && src[2] == frame[2] && src[3]
            == frame[3]);
        assert(be_value(src) == be_value(frame));
    }
}

} // verus!
