use reddb::operation::Operation;
use reddb::bytes::{copy_bytes, same_bytes};
use reddb::store::Store;
use std::collections::HashMap;

fn sorted(mut ids: Vec<u128>) -> Vec<u128> {
    ids.sort();
    ids
}

#[test]
fn store_new_holds_the_entries_given() {
    let mut data: HashMap<u128, Vec<u8>> = HashMap::new();
    data.insert(1, vec![10]);
    data.insert(2, vec![20]);
    let store = Store::new(data);
    assert_eq!(store.len(), 2);
    assert_eq!(store.find(1), Some(vec![10]));
    assert_eq!(store.find(2), Some(vec![20]));
    assert_eq!(store.find(3), None);
}

#[test]
fn store_empty_has_no_entries() {
    let store = Store::empty();
    assert_eq!(store.len(), 0);
    assert!(store.keys().is_empty());
    assert!(!store.contains(0));
}

#[test]
fn store_insert_mints_an_identifier() {
    let mut store = Store::empty();
    let id = store.insert(vec![1, 2]);
    assert_eq!((id >> 76) & 0xf, 4);
    assert_eq!((id >> 62) & 0x3, 2);
    assert_eq!(store.find(id), Some(vec![1, 2]));
    assert_eq!(store.keys(), vec![id]);
}

#[test]
fn store_insert_key_value_replaces_and_returns_the_previous_value() {
    let mut store = Store::empty();
    assert_eq!(store.insert_key_value(5, vec![1]), None);
    assert_eq!(store.insert_key_value(5, vec![2]), Some(vec![1]));
    assert_eq!(store.find(5), Some(vec![2]));
    assert_eq!(store.len(), 1);
}

#[test]
fn store_update_never_inserts() {
    let mut store = Store::empty();
    assert_eq!(store.update(1, vec![9]), false);
    assert_eq!(store.len(), 0);
    store.insert_key_value(1, vec![1]);
    assert_eq!(store.update(1, vec![9]), true);
    assert_eq!(store.find(1), Some(vec![9]));
}

#[test]
fn store_delete_reports_presence() {
    let mut store = Store::empty();
    store.insert_key_value(1, vec![1]);
    assert_eq!(store.delete(1), true);
    assert_eq!(store.delete(1), false);
    assert_eq!(store.find(1), None);
    assert_eq!(store.delete_key(1), None);
    store.insert_key_value(2, vec![7]);
    assert_eq!(store.delete_key(2), Some(vec![7]));
}

#[test]
fn store_find_keys_is_an_exact_match() {
    let mut store = Store::empty();
    store.insert_key_value(1, vec![1, 2]);
    store.insert_key_value(2, vec![1, 2, 3]);
    store.insert_key_value(3, vec![1, 2]);
    store.insert_key_value(4, vec![]);
    assert_eq!(sorted(store.find_keys(&[1, 2])), vec![1, 3]);
    assert_eq!(sorted(store.find_keys(&[])), vec![4]);
    assert!(store.find_keys(&[1]).is_empty());
    assert_eq!(store.find_many(&[1, 2]), vec![vec![1, 2], vec![1, 2]]);
    assert_eq!(sorted(store.keys()), vec![1, 2, 3, 4]);
}

#[test]
fn store_insert_many_keeps_the_order() {
    let mut store = Store::empty();
    let ops = store.insert_many(vec![vec![1], vec![2], vec![1]]);
    assert_eq!(ops.len(), 3);
    assert_eq!(ops[0].1, vec![1]);
    assert_eq!(ops[1].1, vec![2]);
    assert_eq!(ops[2].1, vec![1]);
    for op in &ops {
        assert_eq!(op.2, Operation::Insert);
        assert_eq!(store.find(op.0), Some(op.1.clone()));
    }
    assert_eq!(store.len(), 3);
}

#[test]
fn store_update_many_replaces_every_match() {
    let mut store = Store::empty();
    store.insert_key_value(1, vec![1]);
    store.insert_key_value(2, vec![2]);
    store.insert_key_value(3, vec![1]);
    let mut ops = store.update_many(&[1], &[2]);
    ops.sort_by_key(|op| op.0);
    assert_eq!(ops, vec![(1, vec![2], Operation::Update), (3, vec![2], Operation::Update)]);
    assert_eq!(store.find_many(&[2]).len(), 3);
    assert!(store.update_many(&[1], &[5]).is_empty());
}

#[test]
fn store_delete_many_removes_every_match() {
    let mut store = Store::empty();
    store.insert_key_value(1, vec![1]);
    store.insert_key_value(2, vec![2]);
    store.insert_key_value(3, vec![1]);
    let mut ops = store.delete_many(&[1]);
    ops.sort_by_key(|op| op.0);
    assert_eq!(ops, vec![(1, vec![1], Operation::Delete), (3, vec![1], Operation::Delete)]);
    assert_eq!(store.keys(), vec![2]);
    assert!(store.delete_many(&[1]).is_empty());
}

#[test]
fn bytes_are_compared_and_copied_exactly() {
    assert!(same_bytes(&[], &[]));
    assert!(same_bytes(&[1, 2], &[1, 2]));
    assert!(!same_bytes(&[1, 2], &[1, 3]));
    assert!(!same_bytes(&[1, 2], &[1, 2, 3]));
    assert_eq!(copy_bytes(&[4, 5, 6]), vec![4, 5, 6]);
    assert_eq!(copy_bytes(&[]), Vec::<u8>::new());
}
