use typed_storage::backend::{Backend, MemoryBackend};
use typed_storage::double_map::StorageDoubleMapType;
use typed_storage::error::StorageError;
use typed_storage::hash::StorageHasher;
use typed_storage::instance::StorageInstance;
use typed_storage::metadata::{
    StorageEntryMetadata, StorageEntryModifier, StorageEntryType, StorageMetadataMofidierGetter,
};
use typed_storage::query::{Fixed, FixedVec, OptionQuery, ValueQuery};

type Double = StorageDoubleMapType<u32, u16, u64, OptionQuery, Fixed<u64>>;
type PlainDouble = StorageDoubleMapType<u32, u16, u64, ValueQuery, Fixed<u64>>;

fn instance(entry: &str) -> StorageInstance {
    StorageInstance::new("toto", entry).unwrap()
}

fn double(hasher1: StorageHasher, hasher2: StorageHasher) -> Double {
    StorageDoubleMapType::new(instance("Pairs"), hasher1, hasher2, Fixed(9)).unwrap()
}

#[test]
fn double_map_address_is_prefix_then_both_hashed_keys() {
    let map = double(StorageHasher::Twox64Concat, StorageHasher::Blake2_128Concat);
    let mut expected = sp_crypto_hashing::twox_128(b"toto").to_vec();
    expected.extend_from_slice(&sp_crypto_hashing::twox_128(b"Pairs"));
    assert_eq!(map.prefix_hash(), expected);
    expected.extend_from_slice(&sp_crypto_hashing::twox_64(&[1, 0, 0, 0]));
    expected.extend_from_slice(&[1, 0, 0, 0]);
    assert_eq!(map.storage_double_map_final_key1(&1), Ok(expected.clone()));
    expected.extend_from_slice(&sp_crypto_hashing::blake2_128(&[2, 0]));
    expected.extend_from_slice(&[2, 0]);
    assert_eq!(map.storage_double_map_final_key(&1, &2), Ok(expected));
}

#[test]
fn double_map_insert_get_remove() {
    let mut backend = MemoryBackend::new();
    let map = double(StorageHasher::Twox128, StorageHasher::Blake2_256);
    assert_eq!(map.get(&backend, &1, &1), Ok(None));
    map.insert(&mut backend, &1, &1, &11).unwrap();
    map.insert(&mut backend, &1, &2, &12).unwrap();
    map.insert(&mut backend, &2, &1, &21).unwrap();
    assert_eq!(map.get(&backend, &1, &1), Ok(Some(11)));
    assert_eq!(map.get(&backend, &1, &2), Ok(Some(12)));
    assert_eq!(map.get(&backend, &2, &1), Ok(Some(21)));
    assert_eq!(map.get(&backend, &2, &2), Ok(None));
    assert_eq!(map.contains_key(&backend, &1, &2), Ok(true));
    map.remove(&mut backend, &1, &2).unwrap();
    assert_eq!(map.contains_key(&backend, &1, &2), Ok(false));
    assert_eq!(map.get(&backend, &1, &2), Ok(None));
    assert_eq!(map.get(&backend, &1, &1), Ok(Some(11)));
    assert_eq!(backend.len(), 2);
}

#[test]
fn double_map_default_take_and_mutate() {
    let mut backend = MemoryBackend::new();
    let map: PlainDouble = StorageDoubleMapType::new(
        instance("Pairs"),
        StorageHasher::Identity,
        StorageHasher::Identity,
        Fixed(9),
    )
    .unwrap();
    assert_eq!(map.get(&backend, &1, &1), Ok(9));
    map.mutate(&mut backend, &1, &1, |q| q + 1).unwrap();
    assert_eq!(map.get(&backend, &1, &1), Ok(10));
    assert_eq!(map.take(&mut backend, &1, &1), Ok(10));
    assert_eq!(map.take(&mut backend, &1, &1), Ok(9));
    assert_eq!(map.contains_key(&backend, &1, &1), Ok(false));
    assert_eq!(map.from_optional_value_to_query(None), 9);
    assert_eq!(PlainDouble::from_query_to_optional_value(3), Some(3));
}

#[test]
fn double_map_iterate_prefix_returns_the_records_of_one_first_key() {
    let mut backend = MemoryBackend::new();
    let map = double(StorageHasher::Blake2_128Concat, StorageHasher::Twox64Concat);
    let (key1, key2, key_a, key_b) = (1u32, 2u32, 10u16, 11u16);
    map.insert(&mut backend, &key1, &key_a, &100).unwrap();
    map.insert(&mut backend, &key1, &key_b, &200).unwrap();
    map.insert(&mut backend, &key2, &key_a, &300).unwrap();
    let found = map.iterate_prefix(&backend, &key1).unwrap();
    assert_eq!(found.len(), 2);
    assert!(found.contains(&Ok((key_a, 100))));
    assert!(found.contains(&Ok((key_b, 200))));
    assert_eq!(map.iterate_prefix(&backend, &key2), Ok(vec![Ok((key_a, 300))]));
    assert_eq!(map.iterate_prefix(&backend, &3), Ok(vec![]));
}

#[test]
fn double_map_iterate_prefix_is_in_address_order() {
    let mut backend = MemoryBackend::new();
    let map = double(StorageHasher::Twox128, StorageHasher::Identity);
    for k2 in [300u16, 2, 1] {
        map.insert(&mut backend, &7, &k2, &(k2 as u64)).unwrap();
    }
    // 300 is [44, 1], 1 is [1, 0], 2 is [2, 0]
    assert_eq!(
        map.iterate_prefix(&backend, &7),
        Ok(vec![Ok((1, 1)), Ok((2, 2)), Ok((300, 300))])
    );
}

#[test]
fn double_map_iterate_prefix_needs_a_second_scheme_that_keeps_keys() {
    let mut backend = MemoryBackend::new();
    let map = double(StorageHasher::Twox64Concat, StorageHasher::Blake2_128);
    map.insert(&mut backend, &1, &1, &1).unwrap();
    assert_eq!(map.iterate_prefix(&backend, &1), Err(StorageError::KeysNotRecoverable));
    assert_eq!(
        map.translate_prefix(&mut backend, &1, |_k: u16, v: u64| Some(v)),
        Err(StorageError::KeysNotRecoverable)
    );
}

#[test]
fn double_map_iterate_prefix_reports_records_that_do_not_decode() {
    let mut backend = MemoryBackend::new();
    let map = double(StorageHasher::Identity, StorageHasher::Identity);
    map.insert(&mut backend, &1, &5, &50).unwrap();
    let bad = map.storage_double_map_final_key(&1, &6).unwrap();
    backend.put(&bad, &[1]);
    assert_eq!(
        map.iterate_prefix(&backend, &1),
        Ok(vec![Ok((5, 50)), Err(StorageError::DecodeFailure { address: bad, len: 1 })])
    );
}

#[test]
fn double_map_translate_prefix_touches_one_first_key() {
    let mut backend = MemoryBackend::new();
    let map = double(StorageHasher::Twox64Concat, StorageHasher::Identity);
    map.insert(&mut backend, &1, &1, &10).unwrap();
    map.insert(&mut backend, &1, &2, &20).unwrap();
    map.insert(&mut backend, &2, &1, &30).unwrap();
    let outcomes = map
        .translate_prefix(&mut backend, &1, |k: u16, v: u64| if k == 1 { None } else { Some(v + 1) })
        .unwrap();
    assert_eq!(outcomes, vec![Ok(()), Ok(())]);
    assert_eq!(map.get(&backend, &1, &1), Ok(None));
    assert_eq!(map.get(&backend, &1, &2), Ok(Some(21)));
    assert_eq!(map.get(&backend, &2, &1), Ok(Some(30)));
}

#[test]
fn double_map_append() {
    let mut backend = MemoryBackend::new();
    let map: StorageDoubleMapType<u8, u8, Vec<u8>, ValueQuery, FixedVec<u8>> =
        StorageDoubleMapType::new(
            instance("Lists"),
            StorageHasher::Identity,
            StorageHasher::Identity,
            FixedVec(vec![]),
        )
        .unwrap();
    map.append(&mut backend, &1, &2, 3).unwrap();
    map.append(&mut backend, &1, &2, 4).unwrap();
    assert_eq!(map.get(&backend, &1, &2), Ok(vec![3, 4]));
    assert_eq!(map.get(&backend, &2, &1), Ok(vec![]));
}

#[test]
fn double_map_keys_without_encoding_are_refused() {
    let mut backend = MemoryBackend::new();
    let map: StorageDoubleMapType<Vec<()>, Vec<()>, u32, OptionQuery, Fixed<u32>> =
        StorageDoubleMapType::new(
            instance("ByTally"),
            StorageHasher::Identity,
            StorageHasher::Identity,
            Fixed(0),
        )
        .unwrap();
    let fine = vec![(); 1];
    let too_long = vec![(); (u32::MAX as usize) + 1];
    map.insert(&mut backend, &fine, &fine, &1).unwrap();
    assert_eq!(map.get(&backend, &too_long, &fine), Err(StorageError::EncodingOverflow));
    assert_eq!(map.get(&backend, &fine, &too_long), Err(StorageError::EncodingOverflow));
    assert_eq!(
        map.insert(&mut backend, &fine, &too_long, &1),
        Err(StorageError::EncodingOverflow)
    );
    assert_eq!(map.remove(&mut backend, &too_long, &fine), Err(StorageError::EncodingOverflow));
    assert_eq!(map.contains_key(&backend, &too_long, &fine), Err(StorageError::EncodingOverflow));
    assert_eq!(map.take(&mut backend, &too_long, &fine), Err(StorageError::EncodingOverflow));
    assert_eq!(
        map.mutate(&mut backend, &fine, &too_long, |q| q),
        Err(StorageError::EncodingOverflow)
    );
    assert_eq!(map.iterate_prefix(&backend, &too_long), Err(StorageError::EncodingOverflow));
    assert_eq!(
        map.storage_double_map_final_key1(&too_long),
        Err(StorageError::EncodingOverflow)
    );
    assert_eq!(map.get(&backend, &fine, &fine), Ok(Some(1)));
    assert_eq!(backend.len(), 1);
}

#[test]
fn double_map_descriptor() {
    let map = double(StorageHasher::Twox64Concat, StorageHasher::Blake2_128Concat);
    let expected = StorageEntryMetadata {
        name: "Pairs".to_string(),
        modifier: StorageEntryModifier::Optional,
        ty: StorageEntryType::DoubleMap {
            hasher: StorageHasher::Twox64Concat,
            key1: "u32".to_string(),
            key2: "u16".to_string(),
            value: "u64".to_string(),
            key2_hasher: StorageHasher::Blake2_128Concat,
        },
        default: vec![9, 0, 0, 0, 0, 0, 0, 0],
        documentation: vec!["first".to_string(), "second".to_string()],
    };
    let described = map.storage_entry_metadata_builder("u32", "u16", "u64", &["first", "second"]);
    assert_eq!(described, expected);
    assert_eq!(map.storage_entry_metadata_builder("u32", "u16", "u64", &["first", "second"]), described);
    assert_eq!(map.hasher1(), StorageHasher::Twox64Concat);
    assert_eq!(map.hasher2(), StorageHasher::Blake2_128Concat);
    assert_eq!(map.name(), "Pairs");
    assert_eq!(map.default_byte(), vec![9, 0, 0, 0, 0, 0, 0, 0]);
    assert_eq!(map.module_prefix(), b"toto");
    assert_eq!(map.storage_prefix(), b"Pairs");
    assert_eq!(<Double as StorageMetadataMofidierGetter>::modifier(), StorageEntryModifier::Optional);
    assert_eq!(
        <PlainDouble as StorageMetadataMofidierGetter>::modifier(),
        StorageEntryModifier::Default
    );
}

#[test]
fn double_map_values_under_a_first_key() {
    let mut backend = MemoryBackend::new();
    let map = double(StorageHasher::Twox64Concat, StorageHasher::Blake2_128);
    map.insert(&mut backend, &1, &1, &10).unwrap();
    map.insert(&mut backend, &2, &1, &30).unwrap();
    assert_eq!(map.iterate_prefix_values(&backend, &1), Ok(vec![Ok(10)]));
    assert_eq!(map.iterate_prefix_values(&backend, &2), Ok(vec![Ok(30)]));
    assert_eq!(map.iterate_prefix_values(&backend, &3), Ok(vec![]));
}
