//! The piece bitmap that peers advertise, and the block bitmap of a piece in
//! flight. Bits are packed most-significant-bit first: bit 0 is the high bit
//! of byte 0. Storage is a `bitvec` vector; everything the rest of the library
//! knows about it is stated over the sequence of bits it holds.

use bitvec::order::Msb0;
use bitvec::vec::BitVec;
use vstd::prelude::*;

verus! {

/// An ordered sequence of bits, most significant bit of each byte first.
///
/// The bits live in a `bitvec::vec::BitVec<u8, Msb0>`. What is known of one
/// is what the functions of this file that call into `bitvec` state of
/// `bitfield_bits`; nothing else reaches the field.
#[derive(Debug, PartialEq, Eq)]
#[verifier::external_body]
pub struct Bitfield {
    bits: BitVec<u8, Msb0>,
}

/// The bits that a bitfield holds, in index order.
pub uninterp spec fn bitfield_bits(bitfield: Bitfield) -> Seq<bool>;

impl View for Bitfield {
    type V = Seq<bool>;

    open spec fn view(&self) -> Seq<bool> {
        bitfield_bits(*self)
    }
}

/// The largest number of bits a bitfield can hold: an eighth of the address space.
pub open spec fn max_bits() -> int {
    usize::MAX as int / 8
}

/// The mask that selects bit `k` of a byte, counting from the most significant bit.
pub open spec fn msb_mask(k: int) -> u8 {
    if k == 0 {
        0x80
    } else if k == 1 {
        0x40
    } else if k == 2 {
        0x20
    } else if k == 3 {
        0x10
    } else if k == 4 {
        0x08
    } else if k == 5 {
        0x04
    } else if k == 6 {
        0x02
    } else {
        0x01
    }
}

/// Bit `k` of `byte`, counting from the most significant bit.
pub open spec fn byte_bit(byte: u8, k: int) -> bool {
    byte & msb_mask(k) != 0
}

/// The bits of a byte string: eight per byte, most significant first.
pub open spec fn unpack_bits(bytes: Seq<u8>) -> Seq<bool> {
    Seq::new(bytes.len() * 8, |i: int| byte_bit(bytes[i / 8], i % 8))
}

/// Bit `i` of `bits`, or zero past the end.
pub open spec fn bit_or_zero(bits: Seq<bool>, i: int) -> bool {
    0 <= i < bits.len() && bits[i]
}

/// Whether every bit of `bits` is set; true of the empty sequence.
pub open spec fn all_set(bits: Seq<bool>) -> bool {
    forall|j: int| 0 <= j < bits.len() ==> bits[j]
}

/// Whether `i` is the lowest index of `bits` whose bit is clear.
pub open spec fn is_first_clear(bits: Seq<bool>, i: int) -> bool {
    &&& 0 <= i < bits.len()
    &&& !bits[i]
    &&& forall|j: int| 0 <= j < i ==> bits[j]
}

/// `bits` cut to `new_len`, or extended to it with copies of `value`.
pub open spec fn resized(bits: Seq<bool>, new_len: nat, value: bool) -> Seq<bool> {
    Seq::new(new_len, |i: int| if i < bits.len() { bits[i] } else { value })
}

/// The mask of bit `k` if `bit` is set, else zero.
pub open spec fn mask_if(bit: bool, k: int) -> u8 {
    if bit {
        msb_mask(k)
    } else {
        0
    }
}

/// Byte `j` of the packed form of `bits`; bits past the end count as zero.
pub open spec fn pack_byte(bits: Seq<bool>, j: int) -> u8 {
    mask_if(bit_or_zero(bits, 8 * j), 0) | mask_if(bit_or_zero(bits, 8 * j + 1), 1) | mask_if(
        bit_or_zero(bits, 8 * j + 2),
        2,
    ) | mask_if(bit_or_zero(bits, 8 * j + 3), 3) | mask_if(bit_or_zero(bits, 8 * j + 4), 4)
        | mask_if(bit_or_zero(bits, 8 * j + 5), 5) | mask_if(bit_or_zero(bits, 8 * j + 6), 6)
        | mask_if(bit_or_zero(bits, 8 * j + 7), 7)
}

/// The number of bytes that `n` bits occupy.
pub open spec fn packed_len(n: nat) -> nat {
    ((n + 7) / 8) as nat
}

/// The packed form of `bits`: `ceil(len / 8)` bytes, spare trailing bits zero.
pub open spec fn pack_bits(bits: Seq<bool>) -> Seq<u8> {
    Seq::new(packed_len(bits.len()), |j: int| pack_byte(bits, j))
}

/// `bits` followed by as many zero bits as it takes to fill the last byte.
pub open spec fn pad_to_byte(bits: Seq<bool>) -> Seq<bool> {
    Seq::new(packed_len(bits.len()) * 8, |i: int| bit_or_zero(bits, i))
}

/// Eight flags packed into one byte have exactly those flags as its bits.
proof fn lemma_byte_of_flags(
    b0: bool,
    b1: bool,
    b2: bool,
    b3: bool,
    b4: bool,
    b5: bool,
    b6: bool,
    b7: bool,
)
    ensures
        ({
            let x = mask_if(b0, 0) | mask_if(b1, 1) | mask_if(b2, 2) | mask_if(b3, 3) | mask_if(
                b4,
                4,
            ) | mask_if(b5, 5) | mask_if(b6, 6) | mask_if(b7, 7);
            &&& byte_bit(x, 0) == b0
            &&& byte_bit(x, 1) == b1
            &&& byte_bit(x, 2) == b2
            &&& byte_bit(x, 3) == b3
            &&& byte_bit(x, 4) == b4
            &&& byte_bit(x, 5) == b5
            &&& byte_bit(x, 6) == b6
            &&& byte_bit(x, 7) == b7
        }),
{
    let m0: u8 = if b0 { 0x80 } else { 0 };
    let m1: u8 = if b1 { 0x40 } else { 0 };
    let m2: u8 = if b2 { 0x20 } else { 0 };
    let m3: u8 = if b3 { 0x10 } else { 0 };
    let m4: u8 = if b4 { 0x08 } else { 0 };
    let m5: u8 = if b5 { 0x04 } else { 0 };
    let m6: u8 = if b6 { 0x02 } else { 0 };
    let m7: u8 = if b7 { 0x01 } else { 0 };
    let x: u8 = m0 | m1 | m2 | m3 | m4 | m5 | m6 | m7;
    assert((x & 0x80 != 0) == b0 && (x & 0x40 != 0) == b1 && (x & 0x20 != 0) == b2 && (x & 0x10
        != 0) == b3 && (x & 0x08 != 0) == b4 && (x & 0x04 != 0) == b5 && (x & 0x02 != 0) == b6
        && (x & 0x01 != 0) == b7) by (bit_vector)
        requires
            m0 == (if b0 { 0x80u8 } else { 0 }),
            m1 == (if b1 { 0x40u8 } else { 0 }),
            m2 == (if b2 { 0x20u8 } else { 0 }),
            m3 == (if b3 { 0x10u8 } else { 0 }),
            m4 == (if b4 { 0x08u8 } else { 0 }),
            m5 == (if b5 { 0x04u8 } else { 0 }),
            m6 == (if b6 { 0x02u8 } else { 0 }),
            m7 == (if b7 { 0x01u8 } else { 0 }),
            x == m0 | m1 | m2 | m3 | m4 | m5 | m6 | m7,
    ;
}

/// A byte is the packing of its own eight bits.
proof fn lemma_flags_of_byte(x: u8)
    ensures
        x == mask_if(byte_bit(x, 0), 0) | mask_if(byte_bit(x, 1), 1) | mask_if(byte_bit(x, 2), 2)
            | mask_if(byte_bit(x, 3), 3) | mask_if(byte_bit(x, 4), 4) | mask_if(byte_bit(x, 5), 5)
            | mask_if(byte_bit(x, 6), 6) | mask_if(byte_bit(x, 7), 7),
{
    assert(x == (if x & 0x80 != 0 { 0x80u8 } else { 0 }) | (if x & 0x40 != 0 { 0x40u8 } else { 0 })
        | (if x & 0x20 != 0 { 0x20u8 } else { 0 }) | (if x & 0x10 != 0 { 0x10u8 } else { 0 }) | (
    if x & 0x08 != 0 { 0x08u8 } else { 0 }) | (if x & 0x04 != 0 { 0x04u8 } else { 0 }) | (if x
        & 0x02 != 0 { 0x02u8 } else { 0 }) | (if x & 0x01 != 0 { 0x01u8 } else { 0 }))
        by (bit_vector);
}

/// Unpacking what was packed gives the bits back, padded with zeros to a whole byte.
pub proof fn lemma_unpack_pack(bits: Seq<bool>)
    ensures
        unpack_bits(pack_bits(bits)) == pad_to_byte(bits),
        bits.len() % 8 == 0 ==> unpack_bits(pack_bits(bits)) == bits,
{
    let packed = pack_bits(bits);
    assert forall|i: int| 0 <= i < packed.len() * 8 implies #[trigger] unpack_bits(packed)[i]
        == bit_or_zero(bits, i) by {
        let j = i / 8;
        let k = i % 8;
        lemma_byte_of_flags(
            bit_or_zero(bits, 8 * j),
            bit_or_zero(bits, 8 * j + 1),
            bit_or_zero(bits, 8 * j + 2),
            bit_or_zero(bits, 8 * j + 3),
            bit_or_zero(bits, 8 * j + 4),
            bit_or_zero(bits, 8 * j + 5),
            bit_or_zero(bits, 8 * j + 6),
            bit_or_zero(bits, 8 * j + 7),
        );
        assert(i == 8 * j + k);
    }
    assert(unpack_bits(packed) =~= pad_to_byte(bits));
    if bits.len() % 8 == 0 {
        assert(pad_to_byte(bits) =~= bits);
    }
}

/// Packing the bits of a byte string gives the byte string back.
pub proof fn lemma_pack_unpack(bytes: Seq<u8>)
    ensures
        pack_bits(unpack_bits(bytes)) == bytes,
{
    let bits = unpack_bits(bytes);
    assert forall|j: int| 0 <= j < bytes.len() implies #[trigger] pack_bits(bits)[j]
        == bytes[j] by {
        lemma_flags_of_byte(bytes[j]);
        assert((8 * j) / 8 == j && (8 * j) % 8 == 0);
        assert((8 * j + 1) / 8 == j && (8 * j + 1) % 8 == 1);
        assert((8 * j + 2) / 8 == j && (8 * j + 2) % 8 == 2);
        assert((8 * j + 3) / 8 == j && (8 * j + 3) % 8 == 3);
        assert((8 * j + 4) / 8 == j && (8 * j + 4) % 8 == 4);
        assert((8 * j + 5) / 8 == j && (8 * j + 5) % 8 == 5);
        assert((8 * j + 6) / 8 == j && (8 * j + 6) % 8 == 6);
        assert((8 * j + 7) / 8 == j && (8 * j + 7) % 8 == 7);
    }
    assert(pack_bits(bits) =~= bytes);
}

/// `BitVec::new`: a vector without bits.
#[verifier::external_body]
fn bitvec_new() -> (bitfield: Bitfield)
    ensures
        bitfield_bits(bitfield) == Seq::<bool>::empty(),
{
    Bitfield { bits: BitVec::new() }
}

/// `BitVec::from_vec`: views every bit of the bytes, in `Msb0` order. The
/// crate panics when the bits do not fit its span, which `requires` leaves out.
#[verifier::external_body]
fn bitvec_from_vec(bytes: Vec<u8>) -> (bitfield: Bitfield)
    requires
        bytes@.len() * 8 <= max_bits(),
    ensures
        bitfield_bits(bitfield) == unpack_bits(bytes@),
{
    Bitfield { bits: BitVec::from_vec(bytes) }
}

/// `BitVec::len`: the number of bits held.
#[verifier::external_body]
fn bitvec_len(bitfield: &Bitfield) -> (len: usize)
    ensures
        len == bitfield_bits(*bitfield).len(),
{
    bitfield.bits.len()
}

/// `BitSlice::get` with one index: the bit there, or `None` past the end.
#[verifier::external_body]
fn bitvec_get(bitfield: &Bitfield, index: usize) -> (bit: Option<bool>)
    ensures
        index < bitfield_bits(*bitfield).len() ==> bit == Some(
            bitfield_bits(*bitfield)[index as int],
        ),
        index >= bitfield_bits(*bitfield).len() ==> bit.is_none(),
{
    bitfield.bits.get(index).as_deref().copied()
}

/// `BitSlice::set`: writes one bit and leaves the others. The crate panics on
/// an index past the end, which `requires` leaves out.
#[verifier::external_body]
fn bitvec_set(bitfield: &mut Bitfield, index: usize, value: bool)
    requires
        index < bitfield_bits(*old(bitfield)).len(),
    ensures
        bitfield_bits(*final(bitfield)) == bitfield_bits(*old(bitfield)).update(
            index as int,
            value,
        ),
{
    bitfield.bits.set(index, value)
}

/// `BitVec::resize`: truncates, or appends copies of `value`. The crate panics
/// when the new length does not fit its span, which `requires` leaves out.
#[verifier::external_body]
fn bitvec_resize(bitfield: &mut Bitfield, new_len: usize, value: bool)
    requires
        new_len <= max_bits(),
    ensures
        bitfield_bits(*final(bitfield)) == resized(bitfield_bits(*old(bitfield)), new_len as nat, value),
{
    bitfield.bits.resize(new_len, value)
}

/// The first item of `BitSlice::iter_zeros`: the lowest index whose bit is
/// clear, or `None` when every bit is set.
#[verifier::external_body]
fn bitvec_first_zero(bitfield: &Bitfield) -> (first: Option<usize>)
    ensures
        match first {
            Some(i) => is_first_clear(bitfield_bits(*bitfield), i as int),
            None => all_set(bitfield_bits(*bitfield)),
        },
{
    bitfield.bits.iter_zeros().next()
}

/// `BitSlice::all`: whether every bit is set; true of the empty vector.
#[verifier::external_body]
fn bitvec_all(bitfield: &Bitfield) -> (all: bool)
    ensures
        all == all_set(bitfield_bits(*bitfield)),
{
    bitfield.bits.all()
}

impl Clone for Bitfield {
    /// `BitVec::clone`: a vector with the same bits.
    #[verifier::external_body]
    fn clone(&self) -> (copy: Self)
        ensures
            bitfield_bits(copy) == bitfield_bits(*self),
    {
        Bitfield { bits: self.bits.clone() }
    }
}

impl Bitfield {
    /// A bitfield without bits.
    pub fn new() -> (bitfield: Self)
        ensures
            bitfield@ == Seq::<bool>::empty(),
    {
        bitvec_new()
    }

    /// The bitfield whose bits are those of `bytes`, eight per byte.
    pub fn from_vec(bytes: Vec<u8>) -> (bitfield: Self)
        requires
            bytes@.len() * 8 <= max_bits(),
        ensures
            bitfield@ == unpack_bits(bytes@),
    {
        bitvec_from_vec(bytes)
    }

    /// A bitfield of `len` bits, all equal to `bit`.
    pub fn repeat(bit: bool, len: usize) -> (bitfield: Self)
        requires
            len <= max_bits(),
        ensures
            bitfield@ == Seq::new(len as nat, |i: int| bit),
    {
        let mut bitfield = bitvec_new();
        bitvec_resize(&mut bitfield, len, bit);
        assert(bitfield@ =~= Seq::new(len as nat, |i: int| bit));
        bitfield
    }

    /// The number of bits.
    pub fn len(&self) -> (len: usize)
        ensures
            len == self@.len(),
    {
        bitvec_len(self)
    }

    /// The bit at `index`, or `None` past the end.
    pub fn get(&self, index: usize) -> (bit: Option<bool>)
        ensures
            bit == (if index < self@.len() {
                Some(self@[index as int])
            } else {
                None
            }),
    {
        bitvec_get(self, index)
    }

    /// Whether the bit at `index` exists and is set.
    pub fn has(&self, index: usize) -> (set: bool)
        ensures
            set == bit_or_zero(self@, index as int),
    {
        match bitvec_get(self, index) {
            Some(bit) => bit,
            None => false,
        }
    }

    /// Writes the bit at `index`.
    pub fn set(&mut self, index: usize, value: bool)
        requires
            index < old(self)@.len(),
        ensures
            final(self)@ == old(self)@.update(index as int, value),
    {
        bitvec_set(self, index, value)
    }

    /// Cuts the bitfield to `new_len` bits, or extends it with copies of `value`.
    pub fn resize(&mut self, new_len: usize, value: bool)
        requires
            new_len <= max_bits(),
        ensures
            final(self)@ == resized(old(self)@, new_len as nat, value),
    {
        bitvec_resize(self, new_len, value);
    }

    /// The lowest index whose bit is clear, if there is one.
    pub fn first_zero(&self) -> (first: Option<usize>)
        ensures
            match first {
                Some(i) => is_first_clear(self@, i as int),
                None => all_set(self@),
            },
    {
        bitvec_first_zero(self)
    }

    /// Whether every bit is set.
    pub fn all(&self) -> (all: bool)
        ensures
            all == all_set(self@),
    {
        bitvec_all(self)
    }

    /// Whether no bit at index `from` or above is set.
    pub fn clear_from(&self, from: usize) -> (clear: bool)
        ensures
            clear == (forall|j: int| from <= j < self@.len() ==> !self@[j]),
    {
        let len = bitvec_len(self);
        let mut index: usize = from;
        while index < len
            invariant
                len == self@.len(),
                from <= index,
                forall|j: int| from <= j < index && j < len ==> !self@[j],
            decreases len - index,
        {
            if self.has(index) {
                return false;
            }
            index += 1;
        }
        true
    }

    /// The packed bytes: `ceil(len / 8)` of them, spare bits of the last one zero.
    pub fn to_bytes(&self) -> (bytes: Vec<u8>)
        ensures
            bytes@ == pack_bits(self@),
    {
        let len = bitvec_len(self);
        let n_bytes: usize = len / 8 + (if len % 8 == 0 { 0 } else { 1 });
        assert(n_bytes == packed_len(self@.len()));
        let mut bytes: Vec<u8> = Vec::with_capacity(n_bytes);
        let mut j: usize = 0;
        while j < n_bytes
            invariant
                len == self@.len(),
                n_bytes == packed_len(self@.len()),
                j <= n_bytes,
                bytes@.len() == j,
                forall|i: int| 0 <= i < j ==> #[trigger] bytes@[i] == pack_byte(self@, i),
            decreases n_bytes - j,
        {
            let base: usize = 8 * j;
            let byte: u8 = flag_mask(self.has(base), 0) | flag_mask(self.has(base + 1), 1)
                | flag_mask(self.has(base + 2), 2) | flag_mask(self.has(base + 3), 3) | flag_mask(
                self.has(base + 4),
                4,
            ) | flag_mask(self.has(base + 5), 5) | flag_mask(self.has(base + 6), 6) | flag_mask(
                self.has(base + 7),
                7,
            );
            bytes.push(byte);
            j += 1;
        }
        assert(bytes@ =~= pack_bits(self@));
        bytes
    }
}

/// The mask of bit `k` if `bit` is set, else zero.
fn flag_mask(bit: bool, k: u8) -> (mask: u8)
    requires
        k < 8,
    ensures
        mask == mask_if(bit, k as int),
{
    if !bit {
        0
    } else if k == 0 {
        0x80
    } else if k == 1 {
        0x40
    } else if k == 2 {
        0x20
    } else if k == 3 {
        0x10
    } else if k == 4 {
        0x08
    } else if k == 5 {
        0x04
    } else if k == 6 {
        0x02
    } else {
        0x01
    }
}

} // verus!
