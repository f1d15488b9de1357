use typed_storage::bytes::{bytes_eq, bytes_lt, join, starts_with, tail};

#[test]
fn lexicographic_order_of_byte_strings() {
    assert!(bytes_lt(&[], &[0]));
    assert!(!bytes_lt(&[], &[]));
    assert!(!bytes_lt(&[0], &[]));
    assert!(bytes_lt(&[1, 2], &[1, 3]));
    assert!(bytes_lt(&[1, 2], &[1, 2, 0]));
    assert!(!bytes_lt(&[1, 2, 0], &[1, 2]));
    assert!(bytes_lt(&[1, 255], &[2]));
    assert!(!bytes_lt(&[2], &[1, 255]));
    assert!(!bytes_lt(&[5, 5], &[5, 5]));
}

#[test]
fn order_agrees_with_slices() {
    let samples: [&[u8]; 6] = [&[], &[0], &[0, 0], &[0, 1], &[1], &[255, 0]];
    for a in samples {
        for b in samples {
            assert_eq!(bytes_lt(a, b), a < b);
            assert_eq!(bytes_eq(a, b), a == b);
        }
    }
}

#[test]
fn prefixes_of_byte_strings() {
    assert!(starts_with(&[1, 2, 3], &[]));
    assert!(starts_with(&[1, 2, 3], &[1, 2]));
    assert!(starts_with(&[1, 2, 3], &[1, 2, 3]));
    assert!(!starts_with(&[1, 2, 3], &[1, 2, 3, 4]));
    assert!(!starts_with(&[1, 2, 3], &[2]));
    assert!(starts_with(&[], &[]));
}

#[test]
fn concatenation_and_tails() {
    assert_eq!(join(&[1, 2], &[3]), vec![1, 2, 3]);
    assert_eq!(join(&[], &[]), Vec::<u8>::new());
    assert_eq!(join(&[], &[9]), vec![9]);
    assert_eq!(tail(&[1, 2, 3], 1), vec![2, 3]);
    assert_eq!(tail(&[1, 2, 3], 3), Vec::<u8>::new());
    assert_eq!(tail(&[1, 2, 3], 0), vec![1, 2, 3]);
}
