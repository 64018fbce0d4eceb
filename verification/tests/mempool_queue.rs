use storage_ledger::mempool::{MemPoolRequest, Mempool, DEFAULT_MAX_SIZE};

fn request(n: usize) -> MemPoolRequest {
    MemPoolRequest::with_request_id("requester".to_string(), format!("req-{}", n), vec![n as u8; 4])
}

fn ids(pool: &mut Mempool) -> Vec<String> {
    let mut out = Vec::new();
    while let Some(r) = pool.pop_front() {
        out.push(r.request_id);
    }
    out
}

#[test]
fn new_mempool_is_empty() {
    let pool = Mempool::new(5);
    assert!(pool.is_empty());
    assert_eq!(pool.len(), 0);
    assert_eq!(pool.max_size(), 5);
    assert!(pool.peek_front().is_none());
}

#[test]
fn default_capacity_is_one_thousand() {
    assert_eq!(DEFAULT_MAX_SIZE, 1000);
    let pool = Mempool::with_default_capacity();
    assert_eq!(pool.max_size(), 1000);
    assert!(pool.is_empty());
}

#[test]
fn mempool_is_first_in_first_out() {
    let mut pool = Mempool::new(5);
    pool.add(request(1));
    pool.add(request(2));
    pool.add(request(3));
    assert_eq!(pool.len(), 3);
    assert_eq!(pool.peek_front().map(|r| r.request_id.clone()), Some("req-1".to_string()));
    assert_eq!(pool.len(), 3);
    assert_eq!(ids(&mut pool), vec!["req-1", "req-2", "req-3"]);
    assert!(pool.is_empty());
}

#[test]
fn pop_on_empty_mempool_returns_nothing() {
    let mut pool = Mempool::new(2);
    assert!(pool.pop_front().is_none());
    assert_eq!(pool.len(), 0);
    pool.add(request(1));
    assert!(pool.pop_front().is_some());
    assert!(pool.pop_front().is_none());
}

#[test]
fn full_mempool_evicts_the_oldest() {
    let mut pool = Mempool::new(3);
    for n in 1..=4 {
        pool.add(request(n));
    }
    assert_eq!(pool.len(), 3);
    assert_eq!(ids(&mut pool), vec!["req-2", "req-3", "req-4"]);
}

#[test]
fn one_more_than_capacity_leaves_capacity() {
    let max_size = 50;
    let mut pool = Mempool::new(max_size);
    for n in 0..=max_size {
        pool.add(request(n));
    }
    assert_eq!(pool.len(), max_size);
    let left = ids(&mut pool);
    assert!(!left.contains(&"req-0".to_string()));
    let expected: Vec<String> = (1..=max_size).map(|n| format!("req-{}", n)).collect();
    assert_eq!(left, expected);
}

#[test]
fn mempool_keeps_the_most_recent_window() {
    let mut pool = Mempool::new(4);
    for n in 0..25 {
        pool.add(request(n));
        assert!(pool.len() <= 4);
    }
    assert_eq!(ids(&mut pool), vec!["req-21", "req-22", "req-23", "req-24"]);
}

#[test]
fn capacity_of_one_holds_the_latest() {
    let mut pool = Mempool::new(1);
    pool.add(request(1));
    pool.add(request(2));
    assert_eq!(pool.len(), 1);
    assert_eq!(ids(&mut pool), vec!["req-2"]);
}

#[test]
fn capacity_of_zero_never_evicts() {
    let mut pool = Mempool::new(0);
    pool.add(request(1));
    pool.add(request(2));
    pool.add(request(3));
    assert_eq!(pool.len(), 3);
    assert_eq!(ids(&mut pool), vec!["req-1", "req-2", "req-3"]);
}

#[test]
fn request_derives_hash_and_size_from_content() {
    let r = MemPoolRequest::with_request_id("requester".to_string(), "req-1".to_string(), b"abc".to_vec());
    assert_eq!(r.node_id, "requester");
    assert_eq!(r.request_id, "req-1");
    assert_eq!(r.file_content, b"abc".to_vec());
    assert_eq!(r.file_hash, "ba7816bf8f01cfea414140de5dae2223b00361a396177a9cb410ff61f20015ad");
    assert_eq!(r.file_size, 3);
}

#[test]
fn new_requests_for_same_bytes_share_hash_not_identifier() {
    let a = MemPoolRequest::new("requester".to_string(), b"abc".to_vec());
    let b = MemPoolRequest::new("requester".to_string(), b"abc".to_vec());
    assert_eq!(a.file_hash, b.file_hash);
    assert_eq!(a.file_size, b.file_size);
    assert_ne!(a.request_id, b.request_id);
}

#[test]
fn new_request_identifier_is_hyphenated() {
    let r = MemPoolRequest::new("requester".to_string(), vec![]);
    let id: Vec<char> = r.request_id.chars().collect();
    assert_eq!(id.len(), 36);
    for (i, c) in id.iter().enumerate() {
        if i == 8 || i == 13 || i == 18 || i == 23 {
            assert_eq!(*c, '-');
        } else {
            assert!(c.is_ascii_digit() || ('a'..='f').contains(c));
        }
    }
    assert_eq!(r.file_size, 0);
    assert_eq!(r.file_hash, "e3b0c44298fc1c149afbf4c8996fb92427ae41e4649b934ca495991b7852b855");
}

#[test]
fn cloned_request_keeps_every_field() {
    let r = request(7);
    let c = r.clone();
    assert_eq!(c.node_id, r.node_id);
    assert_eq!(c.request_id, r.request_id);
    assert_eq!(c.file_content, r.file_content);
    assert_eq!(c.file_hash, r.file_hash);
    assert_eq!(c.file_size, r.file_size);
}
