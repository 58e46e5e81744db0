use bolt::dedup::{DedupCache, DEFAULT_API_REQUEST_CACHE_SIZE};

#[test]
fn second_identical_insert_is_refused() {
    let mut cache = DedupCache::new(DEFAULT_API_REQUEST_CACHE_SIZE);
    assert!(cache.check_and_insert(100, &[1, 2, 3], [0xaa; 20]));
    assert!(!cache.check_and_insert(100, &[1, 2, 3], [0xaa; 20]));
    let bucket = cache.bucket(100).expect("slot held");
    assert_eq!(bucket.len(), 1);
    let mut key = vec![0xaau8; 20];
    key.extend_from_slice(&[1, 2, 3]);
    assert_eq!(bucket[0], key);
}

#[test]
fn same_transaction_in_two_slots_is_accepted() {
    let mut cache = DedupCache::new(4);
    assert!(cache.check_and_insert(100, &[1, 2, 3], [0xaa; 20]));
    assert!(cache.check_and_insert(101, &[1, 2, 3], [0xaa; 20]));
}

#[test]
fn other_signer_or_transaction_is_not_a_duplicate() {
    let mut cache = DedupCache::new(4);
    assert!(cache.check_and_insert(7, &[1, 2, 3], [0xaa; 20]));
    assert!(cache.check_and_insert(7, &[1, 2, 3], [0xbb; 20]));
    assert!(cache.check_and_insert(7, &[1, 2, 4], [0xaa; 20]));
    assert!(cache.check_and_insert(7, &[], [0xaa; 20]));
    assert_eq!(cache.bucket(7).map(|b| b.len()), Some(4));
}

#[test]
fn full_cache_evicts_least_recently_used_slot() {
    let mut cache = DedupCache::new(2);
    assert!(cache.check_and_insert(1, &[1], [1; 20]));
    assert!(cache.check_and_insert(2, &[2], [2; 20]));
    assert!(cache.check_and_insert(3, &[3], [3; 20]));
    assert!(cache.bucket(1).is_none());
    assert!(cache.bucket(2).is_some());
    assert!(cache.bucket(3).is_some());
    // slot 1 was forgotten, so the same request is accepted again
    assert!(cache.check_and_insert(1, &[1], [1; 20]));
    assert!(cache.bucket(2).is_none());
}

#[test]
fn insert_refreshes_slot_recency() {
    let mut cache = DedupCache::new(2);
    assert!(cache.check_and_insert(1, &[1], [1; 20]));
    assert!(cache.check_and_insert(2, &[2], [2; 20]));
    assert!(cache.check_and_insert(1, &[9], [1; 20]));
    assert!(cache.check_and_insert(3, &[3], [3; 20]));
    assert!(cache.bucket(2).is_none());
    assert_eq!(cache.bucket(1).map(|b| b.len()), Some(2));
}
