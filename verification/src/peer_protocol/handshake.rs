//! The fixed 68-byte frame that opens every peer connection: the length of
//! the protocol name, the name, eight reserved bytes, the info hash and the
//! sender's peer id.

use crate::torrent::{InfoHash, PeerId};
use vstd::array::array_fill_for_copy_types;
use vstd::prelude::*;

verus! {

/// The number of bytes in a handshake frame.
pub const HANDSHAKE_SIZE: usize = 68;

/// The protocol name, `BitTorrent protocol`.
pub const PROTOCOL_PREFIX: [u8; 19] = [
    0x42,
    0x69,
    0x74,
    0x54,
    0x6f,
    0x72,
    0x72,
    0x65,
    0x6e,
    0x74,
    0x20,
    0x70,
    0x72,
    0x6f,
    0x74,
    0x6f,
    0x63,
    0x6f,
    0x6c,
];

/// A handshake frame, field by field.
#[derive(Debug, Clone, PartialEq)]
pub struct PeerHandshake {
    pub protocol_prefix_length: u8,
    pub protocol_prefix: [u8; 19],
    pub reserved_bytes: [u8; 8],
    pub info_hash: InfoHash,
    pub peer_id: PeerId,
}

/// The frame that announces `info_hash` as `peer_id`: the standard name and
/// zeroed reserved bytes.
pub open spec fn handshake_frame(info_hash: Seq<u8>, peer_id: Seq<u8>) -> Seq<u8> {
    seq![19u8] + PROTOCOL_PREFIX@ + Seq::new(8, |i: int| 0u8) + info_hash + peer_id
}

impl PeerHandshake {
    /// The 68 bytes of this handshake in wire order.
    pub open spec fn wire(&self) -> Seq<u8> {
        seq![self.protocol_prefix_length] + self.protocol_prefix@ + self.reserved_bytes@
            + self.info_hash@ + self.peer_id@
    }

    /// Whether the frame names the protocol as this client does.
    pub open spec fn is_standard(&self) -> bool {
        self.protocol_prefix_length == 19 && self.protocol_prefix@ == PROTOCOL_PREFIX@
    }

    /// The handshake that this client sends.
    pub fn new(info_hash: InfoHash, peer_id: PeerId) -> (handshake: Self)
        ensures
            handshake.info_hash == info_hash,
            handshake.peer_id == peer_id,
            handshake.is_standard(),
            handshake.wire() == handshake_frame(info_hash@, peer_id@),
    {
        let handshake = Self {
            protocol_prefix_length: 19,
            protocol_prefix: PROTOCOL_PREFIX,
            reserved_bytes: [0u8; 8],
            info_hash,
            peer_id,
        };
        assert(handshake.reserved_bytes@ =~= Seq::new(8, |i: int| 0u8));
        handshake
    }

    /// Reads a handshake off the wire. Every 68 bytes are one; whether the
    /// protocol name is the expected one is for `has_standard_prefix` to say.
    pub fn from_bytes(bytes: [u8; 68]) -> (handshake: Self)
        ensures
            handshake.wire() == bytes@,
    {
        let protocol_prefix: [u8; 19] = sub_array(&bytes, 1);
        let reserved_bytes: [u8; 8] = sub_array(&bytes, 20);
        let info_hash: [u8; 20] = sub_array(&bytes, 28);
        let peer_id: [u8; 20] = sub_array(&bytes, 48);
        let handshake = Self {
            protocol_prefix_length: bytes[0],
            protocol_prefix,
            reserved_bytes,
            info_hash: InfoHash::new(info_hash),
            peer_id: PeerId::new(peer_id),
        };
        assert(handshake.wire() =~= bytes@);
        handshake
    }

    /// The 68 bytes of this handshake in wire order.
    pub fn into_bytes(self) -> (bytes: [u8; 68])
        ensures
            bytes@ == self.wire(),
    {
        let mut bytes: [u8; 68] = [0u8; 68];
        bytes[0] = self.protocol_prefix_length;
        put_array(&mut bytes, 1, &self.protocol_prefix);
        put_array(&mut bytes, 20, &self.reserved_bytes);
        put_array(&mut bytes, 28, self.info_hash.as_bytes());
        put_array(&mut bytes, 48, self.peer_id.as_bytes());
        assert(bytes@ =~= self.wire());
        bytes
    }

    /// Whether the frame names the protocol as this client does. A session
    /// goes on either way; a caller may want to log the odd one.
    pub fn has_standard_prefix(&self) -> (standard: bool)
        ensures
            standard == self.is_standard(),
    {
        if self.protocol_prefix_length != 19 {
            return false;
        }
        let mut i: usize = 0;
        while i < 19
            invariant
                i <= 19,
                forall|j: int| 0 <= j < i ==> self.protocol_prefix@[j] == PROTOCOL_PREFIX@[j],
            decreases 19 - i,
        {
            if self.protocol_prefix[i] != PROTOCOL_PREFIX[i] {
                return false;
            }
            i += 1;
        }
        assert(self.protocol_prefix@ =~= PROTOCOL_PREFIX@);
        true
    }
}

/// The `N` bytes of `bytes` that start at `at`.
fn sub_array<const N: usize>(bytes: &[u8; 68], at: usize) -> (part: [u8; N])
    requires
        at + N <= 68,
    ensures
        part@ == bytes@.subrange(at as int, at + N),
{
    let mut part: [u8; N] = array_fill_for_copy_types(0u8);
    let mut i: usize = 0;
    while i < N
        invariant
            i <= N,
            at + N <= 68,
            forall|j: int| 0 <= j < i ==> part@[j] == bytes@[at + j],
        decreases N - i,
    {
        part[i] = bytes[at + i];
        i += 1;
    }
    assert(part@ =~= bytes@.subrange(at as int, at + N));
    part
}

/// Writes `part` into `bytes` from `at` on, and leaves the rest.
fn put_array<const N: usize>(bytes: &mut [u8; 68], at: usize, part: &[u8; N])
    requires
        at + N <= 68,
    ensures
        final(bytes)@ == old(bytes)@.take(at as int) + part@ + old(bytes)@.skip(at + N),
{
    let mut i: usize = 0;
    while i < N
        invariant
            i <= N,
            at + N <= 68,
            forall|j: int| 0 <= j < at ==> bytes@[j] == old(bytes)@[j],
            forall|j: int| 0 <= j < i ==> bytes@[at + j] == part@[j],
            forall|j: int| at + N <= j < 68 ==> bytes@[j] == old(bytes)@[j],
        decreases N - i,
    {
        bytes[at + i] = part[i];
        i += 1;
    }
    assert(bytes@ =~= old(bytes)@.take(at as int) + part@ + old(bytes)@.skip(at + N));
}

/// Two handshakes with the same 68 bytes agree field by field: so reading
/// back what `into_bytes` wrote gives the handshake that was written.
pub proof fn lemma_wire_decides_fields(handshake: PeerHandshake, other: PeerHandshake)
    requires
        handshake.wire() == other.wire(),
    ensures
        handshake.protocol_prefix_length == other.protocol_prefix_length,
        handshake.protocol_prefix@ == other.protocol_prefix@,
        handshake.reserved_bytes@ == other.reserved_bytes@,
        handshake.info_hash@ == other.info_hash@,
        handshake.peer_id@ == other.peer_id@,
{
    let a = handshake.wire();
    let b = other.wire();
    assert(a[0] == b[0]);
    assert forall|j: int| 0 <= j < 19 implies handshake.protocol_prefix@[j]
        == other.protocol_prefix@[j] by {
        assert(a[1 + j] == handshake.protocol_prefix@[j]);
        assert(b[1 + j] == other.protocol_prefix@[j]);
    }
    assert(handshake.protocol_prefix@ =~= other.protocol_prefix@);
    assert forall|j: int| 0 <= j < 8 implies handshake.reserved_bytes@[j]
        == other.reserved_bytes@[j] by {
        assert(a[20 + j] == handshake.reserved_bytes@[j]);
        assert(b[20 + j] == other.reserved_bytes@[j]);
    }
    assert(handshake.reserved_bytes@ =~= other.reserved_bytes@);
    assert forall|j: int| 0 <= j < 20 implies handshake.info_hash@[j] == other.info_hash@[j] by {
        assert(a[28 + j] == handshake.info_hash@[j]);
        assert(b[28 + j] == other.info_hash@[j]);
    }
    assert(handshake.info_hash@ =~= other.info_hash@);
    assert forall|j: int| 0 <= j < 20 implies handshake.peer_id@[j] == other.peer_id@[j] by {
        assert(a[48 + j] == handshake.peer_id@[j]);
        assert(b[48 + j] == other.peer_id@[j]);
    }
    assert(handshake.peer_id@ =~= other.peer_id@);
}

} // verus!
