use typed_storage::backend::{Backend, MemoryBackend};

#[test]
fn empty_store_has_no_records() {
    let store = MemoryBackend::new();
    assert_eq!(store.len(), 0);
    assert_eq!(store.get(&[1]), None);
    assert_eq!(store.scan_prefix(&[]), vec![]);
}

#[test]
fn put_get_remove_one_record() {
    let mut store = MemoryBackend::new();
    store.put(&[1, 2], &[9]);
    assert_eq!(store.get(&[1, 2]), Some(vec![9]));
    assert_eq!(store.get(&[1]), None);
    assert_eq!(store.get(&[1, 2, 3]), None);
    store.put(&[1, 2], &[8, 8]);
    assert_eq!(store.get(&[1, 2]), Some(vec![8, 8]));
    assert_eq!(store.len(), 1);
    store.remove(&[1, 2]);
    assert_eq!(store.get(&[1, 2]), None);
    assert_eq!(store.len(), 0);
    store.remove(&[1, 2]);
    assert_eq!(store.len(), 0);
}

#[test]
fn empty_address_and_empty_value_are_records() {
    let mut store = MemoryBackend::new();
    store.put(&[], &[]);
    assert_eq!(store.get(&[]), Some(vec![]));
    assert_eq!(store.len(), 1);
    store.remove(&[]);
    assert_eq!(store.get(&[]), None);
}

#[test]
fn scan_is_in_ascending_address_order() {
    let mut store = MemoryBackend::new();
    store.put(&[2, 1], &[21]);
    store.put(&[1, 9], &[19]);
    store.put(&[1], &[1]);
    store.put(&[1, 0, 5], &[105]);
    store.put(&[3], &[3]);
    assert_eq!(
        store.scan_prefix(&[]),
        vec![
            (vec![1], vec![1]),
            (vec![1, 0, 5], vec![105]),
            (vec![1, 9], vec![19]),
            (vec![2, 1], vec![21]),
            (vec![3], vec![3]),
        ]
    );
    assert_eq!(
        store.scan_prefix(&[1]),
        vec![(vec![1], vec![1]), (vec![1, 0, 5], vec![105]), (vec![1, 9], vec![19])]
    );
    assert_eq!(store.scan_prefix(&[1, 0]), vec![(vec![1, 0, 5], vec![105])]);
    assert_eq!(store.scan_prefix(&[4]), vec![]);
    assert_eq!(store.len(), 5);
}

#[test]
fn removal_leaves_the_other_records() {
    let mut store = MemoryBackend::new();
    store.put(&[1], &[1]);
    store.put(&[2], &[2]);
    store.put(&[3], &[3]);
    store.remove(&[2]);
    assert_eq!(store.scan_prefix(&[]), vec![(vec![1], vec![1]), (vec![3], vec![3])]);
    store.remove(&[7]);
    assert_eq!(store.len(), 2);
}
