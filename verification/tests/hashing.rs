use typed_storage::hash::{hash128, StorageHasher};

fn hex(bytes: &[u8]) -> String {
    let mut out = String::new();
    for b in bytes {
        out.push_str(&format!("{:02x}", b));
    }
    out
}

#[test]
fn hash128_of_known_names() {
    assert_eq!(hex(&hash128(b"System")), "26aa394eea5630e07c48ae0c9558cef7");
    assert_eq!(hex(&hash128(b"Account")), "b99d880ec681799c0cf30e8886371da9");
    assert_eq!(hex(&hash128(b"")), "99e9d85137db46ef4bbea33613baafd5");
}

#[test]
fn twox128_scheme_gives_the_digest_alone() {
    let hashed = StorageHasher::Twox128.hash(b"Timestamp");
    assert_eq!(hex(&hashed), "f0c365c3cf59d671eb72da0e7a4113c4");
}

#[test]
fn twox64_concat_appends_the_key() {
    let hashed = StorageHasher::Twox64Concat.hash(b"");
    assert_eq!(hex(&hashed), "99e9d85137db46ef");
    let hashed = StorageHasher::Twox64Concat.hash(&[7, 0, 0, 0]);
    assert_eq!(hashed.len(), 12);
    assert_eq!(&hashed[..8], &sp_crypto_hashing::twox_64(&[7, 0, 0, 0])[..]);
    assert_eq!(&hashed[8..], &[7, 0, 0, 0]);
}

#[test]
fn blake2_schemes_of_the_empty_key() {
    assert_eq!(hex(&StorageHasher::Blake2_128.hash(b"")), "cae66941d9efbd404e4d88758ea67670");
    assert_eq!(
        hex(&StorageHasher::Blake2_256.hash(b"")),
        "0e5751c026e543b2e8ab2eb06099daa1d1e5df47778f7787faab45cdf12fe3a8"
    );
    assert_eq!(
        hex(&StorageHasher::Blake2_128Concat.hash(b"")),
        "cae66941d9efbd404e4d88758ea67670"
    );
}

#[test]
fn blake2_128_concat_appends_the_key() {
    let hashed = StorageHasher::Blake2_128Concat.hash(b"abc");
    assert_eq!(hashed.len(), 19);
    assert_eq!(&hashed[..16], &sp_crypto_hashing::blake2_128(b"abc")[..]);
    assert_eq!(&hashed[16..], b"abc");
    assert_ne!(&hashed[..3], b"abc");
}

#[test]
fn twox256_scheme_matches_the_digest() {
    let hashed = StorageHasher::Twox256.hash(b"abc");
    assert_eq!(hashed.len(), 32);
    assert_eq!(&hashed[..], &sp_crypto_hashing::twox_256(b"abc")[..]);
    assert_eq!(&hashed[..16], &hash128(b"abc")[..]);
}

#[test]
fn identity_scheme_is_the_key() {
    assert_eq!(StorageHasher::Identity.hash(b"abc"), b"abc".to_vec());
    assert_eq!(StorageHasher::Identity.digest(b"abc"), Vec::<u8>::new());
}

#[test]
fn digest_lengths_and_reversibility() {
    let all = [
        (StorageHasher::Blake2_128, 16, false),
        (StorageHasher::Blake2_256, 32, false),
        (StorageHasher::Blake2_128Concat, 16, true),
        (StorageHasher::Twox128, 16, false),
        (StorageHasher::Twox256, 32, false),
        (StorageHasher::Twox64Concat, 8, true),
        (StorageHasher::Identity, 0, true),
    ];
    for (hasher, len, reversible) in all {
        assert_eq!(hasher.digest_length(), len);
        assert_eq!(hasher.is_reversible(), reversible);
        assert_eq!(hasher.digest(b"some key").len(), len);
    }
}

#[test]
fn assemble_follows_the_scheme() {
    assert_eq!(StorageHasher::Twox64Concat.assemble(vec![1, 2], &[3, 4]), vec![1, 2, 3, 4]);
    assert_eq!(StorageHasher::Twox128.assemble(vec![1, 2], &[3, 4]), vec![1, 2]);
    assert_eq!(StorageHasher::Identity.assemble(vec![], &[3, 4]), vec![3, 4]);
}

#[test]
fn reverse_recovers_the_key_of_reversible_schemes() {
    let key = [9u8, 8, 7, 6, 5];
    for hasher in
        [StorageHasher::Blake2_128Concat, StorageHasher::Twox64Concat, StorageHasher::Identity]
    {
        let hashed = hasher.hash(&key);
        assert_eq!(hasher.reverse(&hashed), Some(key.to_vec()));
    }
}

#[test]
fn reverse_gives_nothing_for_the_other_schemes_and_short_input() {
    let key = [9u8, 8, 7, 6, 5];
    for hasher in [
        StorageHasher::Blake2_128,
        StorageHasher::Blake2_256,
        StorageHasher::Twox128,
        StorageHasher::Twox256,
    ] {
        let hashed = hasher.hash(&key);
        assert_eq!(hasher.reverse(&hashed), None);
    }
    assert_eq!(StorageHasher::Twox64Concat.reverse(&[1, 2, 3, 4, 5, 6, 7]), None);
    assert_eq!(StorageHasher::Twox64Concat.reverse(&[1, 2, 3, 4, 5, 6, 7, 8]), Some(vec![]));
    assert_eq!(StorageHasher::Blake2_128Concat.reverse(&[0; 15]), None);
}
