use typed_storage::codec::{compact_size, Appendable, Appended, Codec};
use typed_storage::error::StorageError;

#[test]
fn integers_encode_little_endian() {
    assert_eq!(7u8.encode(), Ok(vec![7]));
    assert_eq!(0x0102u16.encode(), Ok(vec![2, 1]));
    assert_eq!(42u32.encode(), Ok(vec![42, 0, 0, 0]));
    assert_eq!(0x0102_0304u32.encode(), Ok(vec![4, 3, 2, 1]));
    assert_eq!(0x0102_0304_0506_0708u64.encode(), Ok(vec![8, 7, 6, 5, 4, 3, 2, 1]));
    assert_eq!(
        1u128.encode(),
        Ok(vec![1, 0, 0, 0, 0, 0, 0, 0, 0, 0, 0, 0, 0, 0, 0, 0])
    );
    assert_eq!(u128::MAX.encode(), Ok(vec![255; 16]));
}

#[test]
fn booleans_encode_as_one_byte() {
    assert_eq!(true.encode(), Ok(vec![1]));
    assert_eq!(false.encode(), Ok(vec![0]));
    assert_eq!(bool::decode(&[1]), Some(true));
    assert_eq!(bool::decode(&[0, 9]), Some(false));
    assert_eq!(bool::decode(&[2]), None);
    assert_eq!(bool::decode(&[]), None);
}

#[test]
fn integers_decode_from_the_front() {
    assert_eq!(u8::decode(&[9, 1]), Some(9));
    assert_eq!(u8::decode(&[]), None);
    assert_eq!(u16::decode(&[2, 1]), Some(0x0102));
    assert_eq!(u16::decode(&[2]), None);
    assert_eq!(u32::decode(&[42, 0, 0, 0]), Some(42));
    assert_eq!(u32::decode(&[42, 0, 0, 0, 77]), Some(42));
    assert_eq!(u32::decode(&[42, 0, 0]), None);
    assert_eq!(u64::decode(&[8, 7, 6, 5, 4, 3, 2, 1]), Some(0x0102_0304_0506_0708));
    assert_eq!(u64::decode(&[0; 7]), None);
    assert_eq!(u128::decode(&[255; 16]), Some(u128::MAX));
    assert_eq!(u128::decode(&[255; 15]), None);
}

#[test]
fn decoding_undoes_encoding() {
    for v in [0u8, 1, 200, 255] {
        assert_eq!(u8::decode(&v.encode().unwrap()), Some(v));
    }
    for v in [0u16, 1, 255, 256, 65535] {
        assert_eq!(u16::decode(&v.encode().unwrap()), Some(v));
    }
    for v in [0u32, 1, 65536, 0xdead_beef, u32::MAX] {
        assert_eq!(u32::decode(&v.encode().unwrap()), Some(v));
    }
    for v in [0u64, 1, 1 << 40, u64::MAX] {
        assert_eq!(u64::decode(&v.encode().unwrap()), Some(v));
    }
    for v in [0u128, 1, 1 << 100, u128::MAX] {
        assert_eq!(u128::decode(&v.encode().unwrap()), Some(v));
    }
    for v in [true, false] {
        assert_eq!(bool::decode(&v.encode().unwrap()), Some(v));
    }
    for len in [0usize, 1, 63, 64, 65, 16383, 16384, 16385, 70000] {
        let v: Vec<u8> = (0..len).map(|i| (i % 251) as u8).collect();
        assert_eq!(Vec::<u8>::decode(&v.encode().unwrap()), Some(v));
    }
}

#[test]
fn byte_strings_encode_with_a_compact_length() {
    assert_eq!(Vec::<u8>::new().encode(), Ok(vec![0]));
    assert_eq!(vec![1u8, 2, 3].encode(), Ok(vec![12, 1, 2, 3]));
    let encoded = vec![7u8; 63].encode().unwrap();
    assert_eq!(encoded[0], 252);
    assert_eq!(encoded.len(), 64);
    let encoded = vec![7u8; 64].encode().unwrap();
    assert_eq!(&encoded[..2], &[1, 1]);
    assert_eq!(encoded.len(), 66);
    let encoded = vec![7u8; 16383].encode().unwrap();
    assert_eq!(&encoded[..2], &[253, 255]);
    let encoded = vec![7u8; 16384].encode().unwrap();
    assert_eq!(&encoded[..4], &[2, 0, 1, 0]);
    assert_eq!(encoded.len(), 16388);
}

#[test]
fn byte_strings_decode_from_the_front() {
    assert_eq!(Vec::<u8>::decode(&[12, 1, 2, 3]), Some(vec![1, 2, 3]));
    assert_eq!(Vec::<u8>::decode(&[12, 1, 2, 3, 4, 5]), Some(vec![1, 2, 3]));
    assert_eq!(Vec::<u8>::decode(&[0]), Some(vec![]));
    assert_eq!(Vec::<u8>::decode(&[12, 1, 2]), None);
    assert_eq!(Vec::<u8>::decode(&[]), None);
}

#[test]
fn compact_length_must_use_the_shortest_form() {
    // the length 1 in the two-byte form
    assert_eq!(Vec::<u8>::decode(&[5, 0, 9]), None);
    // the length 1 in the four-byte form
    assert_eq!(Vec::<u8>::decode(&[6, 0, 0, 0, 9]), None);
    // the length 1 in the five-byte form
    assert_eq!(Vec::<u8>::decode(&[3, 1, 0, 0, 0, 9]), None);
    // a first byte that announces more than four length bytes
    assert_eq!(Vec::<u8>::decode(&[7, 1, 0, 0, 0, 0, 9]), None);
    // the two-byte form cut short
    assert_eq!(Vec::<u8>::decode(&[1]), None);
}

#[test]
fn tally_encodes_its_length_alone() {
    assert_eq!(Vec::<()>::new().encode(), Ok(vec![0]));
    assert_eq!(vec![(); 3].encode(), Ok(vec![12]));
    assert_eq!(vec![(); 64].encode(), Ok(vec![1, 1]));
    assert_eq!(Vec::<()>::decode(&[12, 9, 9]), Some(vec![(); 3]));
    assert_eq!(Vec::<()>::decode(&[5, 0]), None);
    assert_eq!(Vec::<()>::decode(&[]), None);
    assert_eq!(Vec::<()>::decode(&vec![(); 70000].encode().unwrap()), Some(vec![(); 70000]));
}

#[test]
fn sequence_above_the_length_limit_has_no_encoding() {
    let too_long: Vec<()> = vec![(); (u32::MAX as usize) + 1];
    assert_eq!(too_long.encode(), Err(StorageError::EncodingOverflow));
}

#[test]
fn byte_strings_grow_by_one_item() {
    assert_eq!(<Vec<u8> as Appendable>::empty(), Vec::<u8>::new());
    assert_eq!(vec![1u8, 2].with(3), vec![1, 2, 3]);
    assert_eq!(<Vec<u8> as Appendable>::empty().with(9), vec![9]);
    assert_eq!(<Vec<()> as Appendable>::empty().with(()), vec![()]);
}

#[test]
fn compact_sizes() {
    assert_eq!(compact_size(0), 1);
    assert_eq!(compact_size(63), 1);
    assert_eq!(compact_size(64), 2);
    assert_eq!(compact_size(16383), 2);
    assert_eq!(compact_size(16384), 4);
    assert_eq!(compact_size(1073741823), 4);
    assert_eq!(compact_size(1073741824), 5);
    assert_eq!(compact_size(u32::MAX), 5);
    for len in [0usize, 63, 64, 16383, 16384] {
        let encoded = vec![0u8; len].encode().unwrap();
        assert_eq!(encoded.len(), compact_size(len as u32) + len);
    }
}

#[test]
fn appending_to_encoded_bytes_is_a_full_cycle() {
    for len in [0usize, 1, 62, 63, 64, 16382, 16383, 16384] {
        let sequence: Vec<u8> = (0..len).map(|i| (i % 7) as u8).collect();
        let mut grown = sequence.clone();
        grown.push(200);
        assert_eq!(
            <Vec<u8> as Appendable>::append_encoded(sequence.encode().unwrap(), 200),
            Appended::Encoded(grown.encode().unwrap())
        );
        let mut followed = sequence.encode().unwrap();
        followed.extend_from_slice(&[1, 2, 3]);
        assert_eq!(
            <Vec<u8> as Appendable>::append_encoded(followed, 200),
            Appended::Encoded(grown.encode().unwrap())
        );
    }
}

#[test]
fn appending_to_bytes_that_are_no_sequence() {
    assert_eq!(<Vec<u8> as Appendable>::append_encoded(vec![], 1), Appended::Undecodable);
    assert_eq!(<Vec<u8> as Appendable>::append_encoded(vec![8, 1], 1), Appended::Undecodable);
    assert_eq!(<Vec<u8> as Appendable>::append_encoded(vec![5, 0, 1], 1), Appended::Undecodable);
    assert_eq!(<Vec<()> as Appendable>::append_encoded(vec![], ()), Appended::Undecodable);
    assert_eq!(<Vec<()> as Appendable>::append_encoded(vec![12], ()), Appended::Encoded(vec![16]));
}

#[test]
fn appending_to_a_full_tally() {
    assert_eq!(
        <Vec<()> as Appendable>::append_encoded(vec![3, 255, 255, 255, 255], ()),
        Appended::Full
    );
}
