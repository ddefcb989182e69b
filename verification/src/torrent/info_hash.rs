//! The 20-byte SHA-1 digest that identifies a torrent.

use vstd::prelude::*;

verus! {

/// The number of bytes in an info hash.
pub const INFO_HASH_SIZE: usize = 20;

/// Identifies a torrent on the wire and towards the tracker; opaque bytes.
#[derive(Debug, Clone, PartialEq, Eq)]
pub struct InfoHash(pub [u8; 20]);

impl View for InfoHash {
    type V = Seq<u8>;

    open spec fn view(&self) -> Seq<u8> {
        self.0@
    }
}

impl InfoHash {
    /// Wraps the digest bytes.
    pub fn new(bytes: [u8; 20]) -> (info_hash: Self)
        ensures
            info_hash@ == bytes@,
            info_hash.0 == bytes,
    {
        Self(bytes)
    }

    /// The digest bytes.
    pub fn as_bytes(&self) -> (bytes: &[u8; 20])
        ensures
            bytes@ == self@,
            *bytes == self.0,
    {
        &self.0
    }

    /// Whether two info hashes hold the same bytes.
    pub fn matches(&self, other: &InfoHash) -> (same: bool)
        ensures
            same == (self@ == other@),
    {
        same_digest(&self.0, &other.0)
    }
}

/// Whether two 20-byte strings are equal, byte for byte.
pub fn same_digest(left: &[u8; 20], right: &[u8; 20]) -> (same: bool)
    ensures
        same == (left@ == right@),
{
    let mut i: usize = 0;
    while i < 20
        invariant
            i <= 20,
            forall|j: int| 0 <= j < i ==> left@[j] == right@[j],
        decreases 20 - i,
    {
        if left[i] != right[i] {
            return false;
        }
        i += 1;
    }
    assert(left@ =~= right@);
    true
}

} // verus!
