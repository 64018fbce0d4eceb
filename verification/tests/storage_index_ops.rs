use storage_ledger::encoding::position_of;
use storage_ledger::storage_index::StorageIndex;

fn sorted(mut v: Vec<String>) -> Vec<String> {
    v.sort();
    v
}

#[test]
fn new_index_knows_nothing() {
    let index = StorageIndex::new();
    assert!(index.request_ids().is_empty());
    assert!(!index.is_served("r1"));
    assert!(!index.lists("r1", "a"));
    assert!(index.storers("r1").is_empty());
    assert!(index.requests_stored_by("a").is_empty());
}

#[test]
fn insert_lists_the_storer() {
    let mut index = StorageIndex::new();
    index.insert("r1".to_string(), "a".to_string());
    assert!(index.is_served("r1"));
    assert!(index.lists("r1", "a"));
    assert!(!index.lists("r1", "b"));
    assert!(!index.lists("r2", "a"));
    assert!(!index.is_served("r2"));
    assert_eq!(index.storers("r1"), vec!["a".to_string()]);
    assert_eq!(index.request_ids(), vec!["r1".to_string()]);
}

#[test]
fn insert_suppresses_duplicates() {
    let mut index = StorageIndex::new();
    index.insert("r1".to_string(), "a".to_string());
    index.insert("r1".to_string(), "a".to_string());
    index.insert("r1".to_string(), "b".to_string());
    index.insert("r1".to_string(), "a".to_string());
    assert_eq!(sorted(index.storers("r1")), vec!["a".to_string(), "b".to_string()]);
    assert_eq!(index.request_ids().len(), 1);
}

#[test]
fn requests_stored_by_a_node() {
    let mut index = StorageIndex::new();
    index.insert("r1".to_string(), "a".to_string());
    index.insert("r2".to_string(), "b".to_string());
    index.insert("r3".to_string(), "a".to_string());
    index.insert("r3".to_string(), "b".to_string());
    assert_eq!(sorted(index.requests_stored_by("a")), vec!["r1".to_string(), "r3".to_string()]);
    assert_eq!(sorted(index.requests_stored_by("b")), vec!["r2".to_string(), "r3".to_string()]);
    assert!(index.requests_stored_by("c").is_empty());
}

#[test]
fn merge_is_key_wise_union() {
    let mut local = StorageIndex::new();
    local.insert("r1".to_string(), "a".to_string());
    local.insert("r2".to_string(), "a".to_string());
    let mut remote = StorageIndex::new();
    remote.insert("r1".to_string(), "a".to_string());
    remote.insert("r1".to_string(), "b".to_string());
    remote.insert("r3".to_string(), "c".to_string());
    local.merge(&remote);
    assert_eq!(sorted(local.request_ids()), vec!["r1".to_string(), "r2".to_string(), "r3".to_string()]);
    assert_eq!(sorted(local.storers("r1")), vec!["a".to_string(), "b".to_string()]);
    assert_eq!(local.storers("r2"), vec!["a".to_string()]);
    assert_eq!(local.storers("r3"), vec!["c".to_string()]);
    assert_eq!(sorted(remote.storers("r1")), vec!["a".to_string(), "b".to_string()]);
}

#[test]
fn merge_with_empty_changes_nothing() {
    let mut local = StorageIndex::new();
    local.insert("r1".to_string(), "a".to_string());
    local.merge(&StorageIndex::new());
    assert_eq!(local.request_ids(), vec!["r1".to_string()]);
    let mut empty = StorageIndex::new();
    empty.merge(&local);
    assert_eq!(empty.storers("r1"), vec!["a".to_string()]);
}

#[test]
fn merge_is_idempotent() {
    let mut local = StorageIndex::new();
    local.insert("r1".to_string(), "a".to_string());
    local.insert("r1".to_string(), "b".to_string());
    let copy = local.clone();
    local.merge(&copy);
    local.merge(&copy);
    assert_eq!(sorted(local.storers("r1")), vec!["a".to_string(), "b".to_string()]);
    assert_eq!(local.request_ids().len(), 1);
}

#[test]
fn take_empties_the_index() {
    let mut index = StorageIndex::new();
    index.insert("r1".to_string(), "a".to_string());
    let taken = index.take();
    assert!(index.request_ids().is_empty());
    assert!(!index.is_served("r1"));
    assert!(taken.lists("r1", "a"));
}

#[test]
fn clone_is_independent() {
    let mut index = StorageIndex::new();
    index.insert("r1".to_string(), "a".to_string());
    let copy = index.clone();
    index.insert("r1".to_string(), "b".to_string());
    assert_eq!(copy.storers("r1"), vec!["a".to_string()]);
    assert_eq!(index.storers("r1").len(), 2);
}

#[test]
fn position_of_finds_the_first_match() {
    let list = vec!["x".to_string(), "y".to_string(), "x".to_string()];
    assert_eq!(position_of(&list, "x"), Some(0));
    assert_eq!(position_of(&list, "y"), Some(1));
    assert_eq!(position_of(&list, "z"), None);
    assert_eq!(position_of(&vec![], "x"), None);
}
