//! The 20-byte identifier that this client presents to trackers and peers:
//! an 8-byte vendor prefix and 12 bytes chosen once per process.

use rand::distributions::{Alphanumeric, DistString};
use vstd::prelude::*;

verus! {

/// The number of bytes in a peer id.
pub const PEER_ID_SIZE: usize = 20;

/// The number of bytes that follow the vendor prefix.
pub const SUFFIX_LEN: usize = 12;

/// The vendor prefix, `-CX0000-`.
pub const PEER_ID_VENDOR_PREFIX: [u8; 8] = [0x2d, 0x43, 0x58, 0x30, 0x30, 0x30, 0x30, 0x2d];

/// Identifies a client in the swarm.
#[derive(Debug, Clone, PartialEq, Eq)]
pub struct PeerId(pub [u8; 20]);

impl View for PeerId {
    type V = Seq<u8>;

    open spec fn view(&self) -> Seq<u8> {
        self.0@
    }
}

/// Whether `byte` is an ASCII letter or digit.
pub open spec fn is_alphanumeric(byte: u8) -> bool {
    ||| 0x30 <= byte <= 0x39
    ||| 0x41 <= byte <= 0x5a
    ||| 0x61 <= byte <= 0x7a
}

/// `Alphanumeric.sample_string` on the thread's generator: `len` characters,
/// each an ASCII letter or digit, so as many bytes. Which ones is left open.
#[verifier::external_body]
fn random_alphanumeric(len: usize) -> (bytes: Vec<u8>)
    ensures
        bytes@.len() == len,
        forall|i: int| 0 <= i < len ==> is_alphanumeric(#[trigger] bytes@[i]),
{
    Alphanumeric.sample_string(&mut rand::thread_rng(), len).into_bytes()
}

impl PeerId {
    /// Wraps the bytes of a peer id.
    pub fn new(bytes: [u8; 20]) -> (peer_id: Self)
        ensures
            peer_id@ == bytes@,
            peer_id.0 == bytes,
    {
        Self(bytes)
    }

    /// The bytes of the peer id.
    pub fn as_bytes(&self) -> (bytes: &[u8; 20])
        ensures
            bytes@ == self@,
            *bytes == self.0,
    {
        &self.0
    }

    /// The peer id made of the vendor prefix and `suffix`.
    pub fn with_suffix(suffix: &[u8; 12]) -> (peer_id: Self)
        ensures
            peer_id@ == PEER_ID_VENDOR_PREFIX@ + suffix@,
    {
        let mut bytes: [u8; 20] = [0u8; 20];
        let mut i: usize = 0;
        while i < 8
            invariant
                i <= 8,
                forall|j: int| 0 <= j < i ==> bytes@[j] == PEER_ID_VENDOR_PREFIX@[j],
            decreases 8 - i,
        {
            bytes[i] = PEER_ID_VENDOR_PREFIX[i];
            i += 1;
        }
        let mut k: usize = 0;
        while k < 12
            invariant
                k <= 12,
                forall|j: int| 0 <= j < 8 ==> bytes@[j] == PEER_ID_VENDOR_PREFIX@[j],
                forall|j: int| 0 <= j < k ==> bytes@[8 + j] == suffix@[j],
            decreases 12 - k,
        {
            bytes[8 + k] = suffix[k];
            k += 1;
        }
        assert(bytes@ =~= PEER_ID_VENDOR_PREFIX@ + suffix@);
        PeerId::new(bytes)
    }

    /// A peer id with the vendor prefix and a random alphanumeric suffix.
    pub fn with_random_suffix() -> (peer_id: Self)
        ensures
            peer_id@.take(8) == PEER_ID_VENDOR_PREFIX@,
            forall|i: int| 8 <= i < 20 ==> is_alphanumeric(#[trigger] peer_id@[i]),
    {
        let drawn = random_alphanumeric(SUFFIX_LEN);
        let mut suffix: [u8; 12] = [0u8; 12];
        let mut k: usize = 0;
        while k < 12
            invariant
                k <= 12,
                drawn@.len() == 12,
                forall|j: int| 0 <= j < k ==> suffix@[j] == drawn@[j],
            decreases 12 - k,
        {
            suffix[k] = drawn[k];
            k += 1;
        }
        let peer_id = PeerId::with_suffix(&suffix);
        assert(peer_id@.take(8) =~= PEER_ID_VENDOR_PREFIX@);
        assert forall|i: int| 8 <= i < 20 implies is_alphanumeric(#[trigger] peer_id@[i]) by {
            assert(peer_id@[i] == drawn@[i - 8]);
        }
        peer_id
    }
}

} // verus!
