use bt_leech::torrent::Bitfield;

#[test]
fn check_bitfield_indexing() {
    // supposed to mock the vector from the stream;
    let stream_buf = vec![0u8, 1, 0, 1];
    let bv = Bitfield::from_vec(stream_buf.clone());
    for (byte_index, byte) in stream_buf.iter().enumerate() {
        for bit_offset in 0..8 {
            // bit mask with the ith index bit set where i is the offset from the msb
            let bitmask = 1u8 << (7 - bit_offset);
            // extract the ith bit of  the byte as a 1 or 0.
            let stream_bit = ((byte & bitmask) > 0) as u8;

            let bit_index = byte_index * 8 + bit_offset;
            let bitfield_bit = bv.get(bit_index).unwrap() as u8;
            assert_eq!(stream_bit, bitfield_bit);
        }
    }
    assert_eq!(vec![0u8, 1, 0, 1], bv.to_bytes());
}

#[test]
fn bit_zero_is_the_high_bit_of_byte_zero() {
    let bits = Bitfield::from_vec(vec![0x80, 0x01]);
    assert_eq!(bits.len(), 16);
    assert_eq!(bits.get(0), Some(true));
    assert_eq!(bits.get(1), Some(false));
    assert_eq!(bits.get(14), Some(false));
    assert_eq!(bits.get(15), Some(true));
    assert_eq!(bits.get(16), None);
    assert!(bits.has(0));
    assert!(!bits.has(1));
    assert!(!bits.has(16));
    assert!(!bits.has(usize::MAX));
}

#[test]
fn new_is_empty() {
    let bits = Bitfield::new();
    assert_eq!(bits.len(), 0);
    assert_eq!(bits.get(0), None);
    assert!(bits.all());
    assert_eq!(bits.first_zero(), None);
    assert_eq!(bits.to_bytes(), Vec::<u8>::new());
    assert_eq!(Bitfield::from_vec(vec![]).len(), 0);
}

#[test]
fn repeat_and_set() {
    let mut bits = Bitfield::repeat(false, 10);
    assert_eq!(bits.len(), 10);
    assert_eq!(bits.first_zero(), Some(0));
    assert!(!bits.all());
    bits.set(0, true);
    bits.set(1, true);
    bits.set(3, true);
    assert_eq!(bits.first_zero(), Some(2));
    assert_eq!(bits.get(3), Some(true));
    assert_eq!(bits.get(4), Some(false));
    bits.set(3, false);
    assert_eq!(bits.get(3), Some(false));
    for i in 0..10 {
        bits.set(i, true);
    }
    assert!(bits.all());
    assert_eq!(bits.first_zero(), None);
    assert_eq!(Bitfield::repeat(true, 3).to_bytes(), vec![0b1110_0000]);
}

#[test]
fn resize_cuts_and_extends() {
    let mut bits = Bitfield::from_vec(vec![0b1010_0000]);
    bits.resize(3, false);
    assert_eq!(bits.len(), 3);
    assert_eq!((bits.get(0), bits.get(1), bits.get(2)), (Some(true), Some(false), Some(true)));
    bits.resize(6, true);
    assert_eq!(bits.len(), 6);
    assert_eq!(bits.get(2), Some(true));
    assert_eq!(bits.get(3), Some(true));
    assert_eq!(bits.get(5), Some(true));
    bits.resize(7, false);
    assert_eq!(bits.get(6), Some(false));
    assert_eq!(bits.to_bytes(), vec![0b1011_1100]);
}

#[test]
fn to_bytes_zeroes_the_spare_bits() {
    let mut bits = Bitfield::from_vec(vec![0xff, 0xff]);
    bits.resize(9, false);
    assert_eq!(bits.to_bytes(), vec![0xff, 0x80]);
    let mut bits = Bitfield::repeat(false, 17);
    bits.set(16, true);
    assert_eq!(bits.to_bytes(), vec![0, 0, 0x80]);
}

#[test]
fn packing_gives_the_bytes_back() {
    for a in 0..=255u8 {
        let bytes = vec![a, a.wrapping_mul(31).wrapping_add(7), !a];
        assert_eq!(Bitfield::from_vec(bytes.clone()).to_bytes(), bytes);
    }
}

#[test]
fn clear_from_looks_at_the_tail_only() {
    let bits = Bitfield::from_vec(vec![0b1110_0000, 0]);
    assert!(bits.clear_from(3));
    assert!(!bits.clear_from(2));
    assert!(bits.clear_from(16));
    assert!(bits.clear_from(100));
    assert!(!bits.clear_from(0));
}

#[test]
fn clone_has_the_same_bits() {
    let mut bits = Bitfield::from_vec(vec![0x0f, 0xf0]);
    let copy = bits.clone();
    assert_eq!(copy, bits);
    bits.set(0, true);
    assert_eq!(copy.get(0), Some(false));
    assert_eq!(copy.to_bytes(), vec![0x0f, 0xf0]);
}
