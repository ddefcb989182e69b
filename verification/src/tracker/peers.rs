//! The compact peer list of a tracker response: six bytes per peer, four of
//! IPv4 address and two of port, big-endian.

use crate::error::TrackerError;
use vstd::prelude::*;

verus! {

/// The number of bytes that encode one peer address.
pub const SOCKET_ADDR_SIZE_BYTES: usize = 6;

/// The IPv4 address and port of a peer.
#[derive(Debug, Clone, Copy, PartialEq, Eq)]
pub struct SocketAddress {
    pub ip: [u8; 4],
    pub port: u16,
}

/// The peers that a tracker named.
#[derive(Debug, Clone, PartialEq, Eq)]
pub struct PeerAddresses(pub Vec<SocketAddress>);

/// The address bytes of entry `k` of a compact peer list.
pub open spec fn compact_ip(bytes: Seq<u8>, k: int) -> Seq<u8> {
    bytes.subrange(6 * k, 6 * k + 4)
}

/// The port of entry `k` of a compact peer list.
pub open spec fn compact_port(bytes: Seq<u8>, k: int) -> u16 {
    (bytes[6 * k + 4] * 0x100 + bytes[6 * k + 5]) as u16
}

/// Whether `addresses` is what the compact list `bytes` spells.
pub open spec fn spells_addresses(bytes: Seq<u8>, addresses: Seq<SocketAddress>) -> bool {
    &&& addresses.len() * 6 == bytes.len()
    &&& forall|k: int|
        0 <= k < addresses.len() ==> (#[trigger] addresses[k]).ip@ == compact_ip(bytes, k)
            && addresses[k].port == compact_port(bytes, k)
}

impl PeerAddresses {
    /// Decodes a compact peer list. Fails exactly where the length is not a
    /// multiple of six.
    pub fn from_compact(bytes: &[u8]) -> (result: Result<PeerAddresses, TrackerError>)
        ensures
            bytes@.len() % 6 != 0 ==> result == Err::<PeerAddresses, _>(
                TrackerError::MalformedPeers,
            ),
            bytes@.len() % 6 == 0 ==> result.is_ok() && spells_addresses(
                bytes@,
                result.unwrap().0@,
            ),
    {
        if bytes.len() % SOCKET_ADDR_SIZE_BYTES != 0 {
            return Err(TrackerError::MalformedPeers);
        }
        let count = bytes.len() / SOCKET_ADDR_SIZE_BYTES;
        let mut addresses: Vec<SocketAddress> = Vec::with_capacity(count);
        let mut k: usize = 0;
        while k < count
            invariant
                k <= count,
                count * 6 == bytes.len(),
                addresses@.len() == k,
                forall|j: int|
                    0 <= j < k ==> (#[trigger] addresses@[j]).ip@ == compact_ip(bytes@, j)
                        && addresses@[j].port == compact_port(bytes@, j),
            decreases count - k,
        {
            let at = 6 * k;
            let ip: [u8; 4] = [bytes[at], bytes[at + 1], bytes[at + 2], bytes[at + 3]];
            let port: u16 = bytes[at + 4] as u16 * 0x100 + bytes[at + 5] as u16;
            assert(ip@ =~= compact_ip(bytes@, k as int));
            addresses.push(SocketAddress { ip, port });
            k += 1;
        }
        Ok(PeerAddresses(addresses))
    }
}

} // verus!
