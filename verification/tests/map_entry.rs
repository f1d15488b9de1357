use typed_storage::backend::{Backend, MemoryBackend};
use typed_storage::error::StorageError;
use typed_storage::hash::StorageHasher;
use typed_storage::instance::StorageInstance;
use typed_storage::map::StorageMapType;
use typed_storage::metadata::{
    StorageEntryMetadata, StorageEntryModifier, StorageEntryType, StorageMetadataMofidierGetter,
};
use typed_storage::query::{Fixed, FixedVec, GetDefault, OptionQuery, ValueQuery};

type PlainMap = StorageMapType<u32, u32, ValueQuery, GetDefault>;
type OptionalMap = StorageMapType<u32, u32, OptionQuery, GetDefault>;

fn instance(entry: &str) -> StorageInstance {
    StorageInstance::new("toto", entry).unwrap()
}

fn plain_map(hasher: StorageHasher) -> PlainMap {
    StorageMapType::new(instance("MyStorage"), hasher, GetDefault).unwrap()
}

fn optional_map(hasher: StorageHasher) -> OptionalMap {
    StorageMapType::new(instance("MyStorage"), hasher, GetDefault).unwrap()
}

#[test]
fn map_with_default_zero_insert_get_remove() {
    let mut backend = MemoryBackend::new();
    let map = plain_map(StorageHasher::Blake2_128Concat);
    map.insert(&mut backend, &7, &42).unwrap();
    assert_eq!(map.get(&backend, &7), Ok(42));
    assert_eq!(map.get(&backend, &8), Ok(0));
    map.remove(&mut backend, &7).unwrap();
    assert_eq!(map.get(&backend, &7), Ok(0));
}

#[test]
fn map_address_is_prefix_then_hashed_key() {
    let map = plain_map(StorageHasher::Blake2_128Concat);
    let address = map.storage_map_final_key(&7).unwrap();
    let mut expected = sp_crypto_hashing::twox_128(b"toto").to_vec();
    expected.extend_from_slice(&sp_crypto_hashing::twox_128(b"MyStorage"));
    assert_eq!(map.prefix_hash(), expected);
    expected.extend_from_slice(&sp_crypto_hashing::blake2_128(&[7, 0, 0, 0]));
    expected.extend_from_slice(&[7, 0, 0, 0]);
    assert_eq!(address, expected);
    assert_eq!(address.len(), 32 + 16 + 4);

    let map = plain_map(StorageHasher::Twox256);
    assert_eq!(map.storage_map_final_key(&7).unwrap().len(), 32 + 32);
    let map = plain_map(StorageHasher::Identity);
    assert_eq!(&map.storage_map_final_key(&7).unwrap()[32..], &[7, 0, 0, 0]);
}

#[test]
fn map_insert_writes_one_record() {
    let mut backend = MemoryBackend::new();
    let map = plain_map(StorageHasher::Twox64Concat);
    map.insert(&mut backend, &3, &3).unwrap();
    let address = map.storage_map_final_key(&3).unwrap();
    assert_eq!(backend.scan_prefix(&[]), vec![(address, vec![3, 0, 0, 0])]);
}

#[test]
fn map_put_then_get_for_every_scheme() {
    let schemes = [
        StorageHasher::Blake2_128,
        StorageHasher::Blake2_256,
        StorageHasher::Blake2_128Concat,
        StorageHasher::Twox128,
        StorageHasher::Twox256,
        StorageHasher::Twox64Concat,
        StorageHasher::Identity,
    ];
    for hasher in schemes {
        let mut backend = MemoryBackend::new();
        let map = optional_map(hasher);
        assert_eq!(map.get(&backend, &1), Ok(None));
        map.insert(&mut backend, &1, &10).unwrap();
        map.insert(&mut backend, &2, &20).unwrap();
        assert_eq!(map.get(&backend, &1), Ok(Some(10)));
        assert_eq!(map.get(&backend, &2), Ok(Some(20)));
        assert_eq!(map.get(&backend, &3), Ok(None));
        assert_eq!(map.contains_key(&backend, &1), Ok(true));
        map.remove(&mut backend, &1).unwrap();
        assert_eq!(map.contains_key(&backend, &1), Ok(false));
        assert_eq!(map.get(&backend, &1), Ok(None));
        assert_eq!(map.get(&backend, &2), Ok(Some(20)));
        assert_eq!(backend.len(), 1);
    }
}

#[test]
fn map_take_and_mutate() {
    let mut backend = MemoryBackend::new();
    let map = optional_map(StorageHasher::Twox64Concat);
    map.mutate(&mut backend, &5, |q| Some(q.unwrap_or(100) + 1)).unwrap();
    assert_eq!(map.get(&backend, &5), Ok(Some(101)));
    map.mutate(&mut backend, &5, |q| q.map(|v| v * 2)).unwrap();
    assert_eq!(map.get(&backend, &5), Ok(Some(202)));
    assert_eq!(map.take(&mut backend, &5), Ok(Some(202)));
    assert_eq!(map.take(&mut backend, &5), Ok(None));
    map.insert(&mut backend, &5, &1).unwrap();
    map.mutate(&mut backend, &5, |_| None).unwrap();
    assert_eq!(map.contains_key(&backend, &5), Ok(false));

    let map = plain_map(StorageHasher::Twox64Concat);
    map.mutate(&mut backend, &6, |q| q + 1).unwrap();
    assert_eq!(map.get(&backend, &6), Ok(1));
    assert_eq!(map.take(&mut backend, &6), Ok(1));
    assert_eq!(map.take(&mut backend, &6), Ok(0));
}

#[test]
fn map_iterates_inserted_keys_in_address_order() {
    let mut backend = MemoryBackend::new();
    let map = plain_map(StorageHasher::Blake2_128Concat);
    let pairs = [(3u32, 30u32), (1, 10), (2, 20)];
    for (k, v) in pairs {
        map.insert(&mut backend, &k, &v).unwrap();
    }
    let mut expected: Vec<(Vec<u8>, (u32, u32))> =
        pairs.iter().map(|(k, v)| (map.storage_map_final_key(k).unwrap(), (*k, *v))).collect();
    expected.sort();
    let expected: Vec<Result<(u32, u32), StorageError>> =
        expected.into_iter().map(|(_, pair)| Ok(pair)).collect();
    assert_eq!(map.iterate(&backend), Ok(expected));
    let found = map.iterate(&backend).unwrap();
    assert_eq!(found.len(), 3);
    for pair in pairs {
        assert!(found.contains(&Ok(pair)));
    }
}

#[test]
fn map_iteration_under_identity_is_in_key_byte_order() {
    let mut backend = MemoryBackend::new();
    let map = plain_map(StorageHasher::Identity);
    for k in [256u32, 2, 1] {
        map.insert(&mut backend, &k, &(k + 1)).unwrap();
    }
    // addresses order by the little-endian bytes of the keys
    assert_eq!(map.iterate(&backend), Ok(vec![Ok((256, 257)), Ok((1, 2)), Ok((2, 3))]));
}

#[test]
fn map_iteration_leaves_out_other_entries() {
    let mut backend = MemoryBackend::new();
    let map = plain_map(StorageHasher::Twox64Concat);
    let other: PlainMap =
        StorageMapType::new(instance("Other"), StorageHasher::Twox64Concat, GetDefault).unwrap();
    map.insert(&mut backend, &1, &10).unwrap();
    other.insert(&mut backend, &2, &20).unwrap();
    assert_eq!(map.iterate(&backend), Ok(vec![Ok((1, 10))]));
    assert_eq!(other.iterate(&backend), Ok(vec![Ok((2, 20))]));
    let empty: PlainMap =
        StorageMapType::new(instance("Empty"), StorageHasher::Twox64Concat, GetDefault).unwrap();
    assert_eq!(empty.iterate(&backend), Ok(vec![]));
}

#[test]
fn map_iteration_needs_a_scheme_that_keeps_keys() {
    let mut backend = MemoryBackend::new();
    for hasher in [
        StorageHasher::Blake2_128,
        StorageHasher::Blake2_256,
        StorageHasher::Twox128,
        StorageHasher::Twox256,
    ] {
        let map = plain_map(hasher);
        map.insert(&mut backend, &1, &10).unwrap();
        assert_eq!(map.iterate(&backend), Err(StorageError::KeysNotRecoverable));
        let before = backend.scan_prefix(&[]);
        assert_eq!(
            map.translate(&mut backend, |_k: u32, v: u32| Some(v + 1)),
            Err(StorageError::KeysNotRecoverable)
        );
        assert_eq!(backend.scan_prefix(&[]), before);
    }
}

#[test]
fn map_iteration_reports_records_that_do_not_decode() {
    let mut backend = MemoryBackend::new();
    let map = plain_map(StorageHasher::Identity);
    map.insert(&mut backend, &1, &10).unwrap();
    let bad_value = map.storage_map_final_key(&2).unwrap();
    backend.put(&bad_value, &[1, 2, 3]);
    let mut bad_key = map.prefix_hash();
    bad_key.extend_from_slice(&[9, 9]);
    backend.put(&bad_key, &[4, 0, 0, 0]);
    assert_eq!(
        map.iterate(&backend),
        Ok(vec![
            Ok((1, 10)),
            Err(StorageError::DecodeFailure { address: bad_value, len: 3 }),
            Err(StorageError::DecodeFailure { address: bad_key, len: 4 }),
        ])
    );
}

#[test]
fn map_translate_rewrites_and_removes() {
    let mut backend = MemoryBackend::new();
    let old: StorageMapType<u32, u16, OptionQuery, GetDefault> =
        StorageMapType::new(instance("MyStorage"), StorageHasher::Identity, GetDefault).unwrap();
    for k in 1..=4u32 {
        old.insert(&mut backend, &k, &(k as u16 * 10)).unwrap();
    }
    let map: StorageMapType<u32, u64, OptionQuery, GetDefault> =
        StorageMapType::new(instance("MyStorage"), StorageHasher::Identity, GetDefault).unwrap();
    let outcomes = map
        .translate(&mut backend, |k: u32, v: u16| if k % 2 == 0 { Some(v as u64 + 1) } else { None })
        .unwrap();
    assert_eq!(outcomes, vec![Ok(()), Ok(()), Ok(()), Ok(())]);
    assert_eq!(map.iterate(&backend), Ok(vec![Ok((2, 21)), Ok((4, 41))]));
    assert_eq!(
        backend.get(&map.storage_map_final_key(&2).unwrap()),
        Some(vec![21, 0, 0, 0, 0, 0, 0, 0])
    );
}

#[test]
fn map_translate_skips_records_that_do_not_decode() {
    let mut backend = MemoryBackend::new();
    let map = plain_map(StorageHasher::Identity);
    map.insert(&mut backend, &1, &10).unwrap();
    map.insert(&mut backend, &3, &30).unwrap();
    let bad = map.storage_map_final_key(&2).unwrap();
    backend.put(&bad, &[7]);
    let other: PlainMap =
        StorageMapType::new(instance("Other"), StorageHasher::Identity, GetDefault).unwrap();
    other.insert(&mut backend, &1, &11).unwrap();
    let outcomes = map.translate(&mut backend, |_k: u32, v: u32| Some(v + 1)).unwrap();
    assert_eq!(
        outcomes,
        vec![Ok(()), Err(StorageError::DecodeFailure { address: bad.clone(), len: 1 }), Ok(())]
    );
    assert_eq!(map.get(&backend, &1), Ok(11));
    assert_eq!(map.get(&backend, &3), Ok(31));
    assert_eq!(backend.get(&bad), Some(vec![7]));
    assert_eq!(other.get(&backend, &1), Ok(11));
    assert_eq!(backend.len(), 4);
}

#[test]
fn map_translate_reports_values_without_encoding() {
    let mut backend = MemoryBackend::new();
    let old = plain_map(StorageHasher::Identity);
    old.insert(&mut backend, &1, &3).unwrap();
    old.insert(&mut backend, &2, &0).unwrap();
    let map: StorageMapType<u32, Vec<()>, OptionQuery, FixedVec<()>> =
        StorageMapType::new(instance("MyStorage"), StorageHasher::Identity, FixedVec(vec![]))
            .unwrap();
    let outcomes = map
        .translate(&mut backend, |_k: u32, v: u32| {
            Some(if v == 0 { vec![(); (u32::MAX as usize) + 1] } else { vec![(); v as usize] })
        })
        .unwrap();
    assert_eq!(outcomes, vec![Ok(()), Err(StorageError::EncodingOverflow)]);
    assert_eq!(backend.get(&map.storage_map_final_key(&1).unwrap()), Some(vec![12]));
    assert_eq!(backend.get(&map.storage_map_final_key(&2).unwrap()), Some(vec![0, 0, 0, 0]));
}

#[test]
fn map_append_grows_the_sequence_of_a_key() {
    let mut backend = MemoryBackend::new();
    let map: StorageMapType<u32, Vec<u8>, OptionQuery, FixedVec<u8>> =
        StorageMapType::new(instance("Lists"), StorageHasher::Twox64Concat, FixedVec(vec![]))
            .unwrap();
    map.append(&mut backend, &1, 5).unwrap();
    map.append(&mut backend, &1, 6).unwrap();
    map.append(&mut backend, &2, 7).unwrap();
    assert_eq!(map.get(&backend, &1), Ok(Some(vec![5, 6])));
    assert_eq!(map.get(&backend, &2), Ok(Some(vec![7])));
    assert_eq!(backend.get(&map.storage_map_final_key(&1).unwrap()), Some(vec![8, 5, 6]));
}

#[test]
fn map_key_without_encoding_is_refused() {
    let mut backend = MemoryBackend::new();
    let map: StorageMapType<Vec<()>, u32, ValueQuery, Fixed<u32>> =
        StorageMapType::new(instance("ByTally"), StorageHasher::Identity, Fixed(1)).unwrap();
    let key = vec![(); (u32::MAX as usize) + 1];
    map.insert(&mut backend, &vec![(); 2], &5).unwrap();
    let before = backend.scan_prefix(&[]);
    assert_eq!(map.storage_map_final_key(&key), Err(StorageError::EncodingOverflow));
    assert_eq!(map.get(&backend, &key), Err(StorageError::EncodingOverflow));
    assert_eq!(map.contains_key(&backend, &key), Err(StorageError::EncodingOverflow));
    assert_eq!(map.insert(&mut backend, &key, &1), Err(StorageError::EncodingOverflow));
    assert_eq!(map.remove(&mut backend, &key), Err(StorageError::EncodingOverflow));
    assert_eq!(map.take(&mut backend, &key), Err(StorageError::EncodingOverflow));
    assert_eq!(map.mutate(&mut backend, &key, |q| q), Err(StorageError::EncodingOverflow));
    assert_eq!(backend.scan_prefix(&[]), before);
    assert_eq!(map.get(&backend, &vec![(); 2]), Ok(5));
    assert_eq!(map.iterate(&backend), Ok(vec![Ok((vec![(); 2], 5))]));
}

#[test]
fn map_record_that_does_not_decode_is_reported() {
    let mut backend = MemoryBackend::new();
    let map = plain_map(StorageHasher::Blake2_128Concat);
    let address = map.storage_map_final_key(&1).unwrap();
    backend.put(&address, &[]);
    assert_eq!(
        map.get(&backend, &1),
        Err(StorageError::DecodeFailure { address: address.clone(), len: 0 })
    );
    assert_eq!(map.contains_key(&backend, &1), Ok(true));
}

#[test]
fn map_descriptor() {
    let map = plain_map(StorageHasher::Blake2_128Concat);
    let expected = StorageEntryMetadata {
        name: "MyStorage".to_string(),
        modifier: StorageEntryModifier::Default,
        ty: StorageEntryType::SingleMap {
            hasher: StorageHasher::Blake2_128Concat,
            key: "u32".to_string(),
            value: "u32".to_string(),
            unused: false,
        },
        default: vec![0, 0, 0, 0],
        documentation: vec!["Map of things.".to_string()],
    };
    assert_eq!(map.storage_entry_metadata_builder("u32", "u32", &["Map of things."]), expected);
    assert_eq!(map.hasher(), StorageHasher::Blake2_128Concat);
    assert_eq!(map.name(), "MyStorage");
    assert_eq!(map.default_byte(), vec![0, 0, 0, 0]);
    assert_eq!(map.module_prefix(), b"toto");
    assert_eq!(map.storage_prefix(), b"MyStorage");
    let optional = optional_map(StorageHasher::Twox64Concat);
    let described = optional.storage_entry_metadata_builder("K", "V", &[]);
    assert_eq!(described.modifier, StorageEntryModifier::Optional);
    assert_eq!(
        <OptionalMap as StorageMetadataMofidierGetter>::modifier(),
        StorageEntryModifier::Optional
    );
    assert_eq!(<PlainMap as StorageMetadataMofidierGetter>::modifier(), StorageEntryModifier::Default);
}

#[test]
fn map_descriptor_does_not_depend_on_the_store() {
    let mut backend = MemoryBackend::new();
    let map = plain_map(StorageHasher::Blake2_128Concat);
    let before = map.storage_entry_metadata_builder("u32", "u32", &["a", "b"]);
    map.insert(&mut backend, &1, &2).unwrap();
    let after = map.storage_entry_metadata_builder("u32", "u32", &["a", "b"]);
    assert_eq!(before, after);
}

#[test]
fn query_conversions_of_the_map() {
    let map = plain_map(StorageHasher::Identity);
    assert_eq!(map.from_optional_value_to_query(None), 0);
    assert_eq!(map.from_optional_value_to_query(Some(4)), 4);
    assert_eq!(PlainMap::from_query_to_optional_value(0), Some(0));
    let map = optional_map(StorageHasher::Identity);
    assert_eq!(map.from_optional_value_to_query(None), None);
    assert_eq!(map.from_optional_value_to_query(Some(4)), Some(4));
    assert_eq!(OptionalMap::from_query_to_optional_value(None), None);
    assert_eq!(OptionalMap::from_query_to_optional_value(Some(4)), Some(4));
}

#[test]
fn map_values_are_enumerated_under_every_scheme() {
    let mut backend = MemoryBackend::new();
    let map = plain_map(StorageHasher::Twox128);
    let pairs = [(3u32, 30u32), (1, 10), (2, 20)];
    for (k, v) in pairs {
        map.insert(&mut backend, &k, &v).unwrap();
    }
    let mut expected: Vec<(Vec<u8>, u32)> =
        pairs.iter().map(|(k, v)| (map.storage_map_final_key(k).unwrap(), *v)).collect();
    expected.sort();
    let expected: Vec<Result<u32, StorageError>> =
        expected.into_iter().map(|(_, v)| Ok(v)).collect();
    assert_eq!(map.iterate_values(&backend), expected);
    let bad = map.storage_map_final_key(&9).unwrap();
    backend.put(&bad, &[1]);
    let found = map.iterate_values(&backend);
    assert_eq!(found.len(), 4);
    assert!(found.contains(&Err(StorageError::DecodeFailure { address: bad, len: 1 })));
}
