//! The `pieces` entry of a metainfo file: the SHA-1 digests of the pieces,
//! one after the other, twenty bytes each.

use super::PieceHash;
use crate::error::MetainfoError;
use vstd::prelude::*;

verus! {

/// The number of bytes per digest.
pub const HASH_SIZE: usize = 20;

/// The digests of `hashes` one after the other.
pub open spec fn concat_hashes(hashes: Seq<PieceHash>) -> Seq<u8> {
    Seq::new(hashes.len() * 20, |i: int| hashes[i / 20]@[i % 20])
}

/// Cuts the `pieces` entry into digests. Fails exactly where its length is
/// not a multiple of twenty.
pub fn deserialize(bytes: &[u8]) -> (result: Result<Vec<PieceHash>, MetainfoError>)
    ensures
        bytes@.len() % 20 != 0 ==> result == Err::<Vec<PieceHash>, _>(
            MetainfoError::MalformedHashes,
        ),
        bytes@.len() % 20 == 0 ==> result.is_ok() && concat_hashes(result.unwrap()@) == bytes@,
{
    let n_bytes = bytes.len();
    if n_bytes % HASH_SIZE != 0 {
        return Err(MetainfoError::MalformedHashes);
    }
    let count = n_bytes / HASH_SIZE;
    let mut hashes: Vec<PieceHash> = Vec::with_capacity(count);
    let mut k: usize = 0;
    while k < count
        invariant
            k <= count,
            count * 20 == bytes.len(),
            hashes@.len() == k,
            forall|j: int, i: int|
                0 <= j < k && 0 <= i < 20 ==> (#[trigger] hashes@[j])@[i] == #[trigger] bytes@[20
                    * j + i],
        decreases count - k,
    {
        let mut hash: PieceHash = [0u8; 20];
        let mut i: usize = 0;
        while i < 20
            invariant
                i <= 20,
                k < count,
                count * 20 == bytes.len(),
                forall|j: int| 0 <= j < i ==> hash@[j] == bytes@[20 * k + j],
            decreases 20 - i,
        {
            hash[i] = bytes[20 * k + i];
            i += 1;
        }
        hashes.push(hash);
        k += 1;
    }
    assert forall|i: int| 0 <= i < bytes@.len() implies concat_hashes(hashes@)[i] == bytes@[i] by {
        let j = i / 20;
        let r = i % 20;
        assert(hashes@[j]@[r] == bytes@[20 * j + r]);
    }
    assert(concat_hashes(hashes@) =~= bytes@);
    Ok(hashes)
}

/// Writes digests out one after the other, as the `pieces` entry has them.
pub fn serialize(piece_hashes: &[PieceHash]) -> (bytes: Vec<u8>)
    requires
        piece_hashes@.len() * 20 <= usize::MAX,
    ensures
        bytes@ == concat_hashes(piece_hashes@),
{
    let mut bytes: Vec<u8> = Vec::new();
    let mut k: usize = 0;
    while k < piece_hashes.len()
        invariant
            k <= piece_hashes.len(),
            bytes@ == concat_hashes(piece_hashes@.take(k as int)),
        decreases piece_hashes.len() - k,
    {
        let hash = &piece_hashes[k];
        let mut i: usize = 0;
        let ghost before = bytes@;
        while i < 20
            invariant
                i <= 20,
                bytes@ == before + hash@.take(i as int),
            decreases 20 - i,
        {
            bytes.push(hash[i]);
            assert(bytes@ =~= before + hash@.take(i + 1));
            i += 1;
        }
        assert(bytes@ =~= concat_hashes(piece_hashes@.take(k + 1))) by {
            let longer = piece_hashes@.take(k + 1);
            assert forall|x: int| 0 <= x < 20 * (k + 1) implies bytes@[x] == concat_hashes(
                longer,
            )[x] by {
                if x < 20 * k {
                    assert(bytes@[x] == concat_hashes(piece_hashes@.take(k as int))[x]);
                    assert(longer[x / 20] == piece_hashes@.take(k as int)[x / 20]);
                } else {
                    assert(x / 20 == k && x % 20 == x - 20 * k);
                    assert(bytes@[x] == hash@[x - 20 * k]);
                }
            }
        }
        k += 1;
    }
    assert(piece_hashes@.take(piece_hashes.len() as int) =~= piece_hashes@);
    bytes
}

/// Two lists of digests that are written out alike are alike, digest by digest.
pub proof fn lemma_concat_hashes_injective(left: Seq<PieceHash>, right: Seq<PieceHash>)
    requires
        concat_hashes(left) == concat_hashes(right),
    ensures
        left.len() == right.len(),
        forall|k: int| 0 <= k < left.len() ==> (#[trigger] left[k])@ == right[k]@,
{
    assert(concat_hashes(left).len() == left.len() * 20);
    assert(concat_hashes(right).len() == right.len() * 20);
    assert forall|k: int| 0 <= k < left.len() implies (#[trigger] left[k])@ == right[k]@ by {
        assert forall|i: int| 0 <= i < 20 implies left[k]@[i] == right[k]@[i] by {
            let at = 20 * k + i;
            assert(at / 20 == k && at % 20 == i);
            assert(0 <= at < left.len() * 20);
            assert(concat_hashes(left)[at] == left[at / 20]@[at % 20]);
            assert(concat_hashes(right)[at] == right[at / 20]@[at % 20]);
        }
        assert(left[k]@ =~= right[k]@);
    }
}

} // verus!
