use bolt::builder::{ExecutionPayload, LocalBuilder, FALLBACK_BID_VALUE};
use bolt::signing::{compute_domain, verify_root, BlsSecretKey, APPLICATION_BUILDER_DOMAIN_MASK};

fn payload(hash_byte: u8, txs: Vec<Vec<u8>>) -> ExecutionPayload {
    ExecutionPayload {
        block_hash: [hash_byte; 32],
        parent_hash: [0u8; 32],
        block_number: 10,
        transactions: txs,
    }
}

fn builder() -> LocalBuilder {
    LocalBuilder::new(BlsSecretKey::from_bytes([9u8; 32]).expect("valid secret key"), [0, 0, 0, 0])
}

#[test]
fn bid_signature_verifies_and_payload_is_cached() {
    let mut b = builder();
    let txs = vec![vec![1u8, 2], vec![3u8], vec![4u8, 5, 6]];
    let bid = b.build_new_payload(payload(0xab, txs.clone()), [3u8; 32]);
    assert_eq!(bid.message.value, FALLBACK_BID_VALUE);
    assert_eq!(bid.message.value, 1_000_000_000_000_000_000);
    let pk = BlsSecretKey::from_bytes([9u8; 32]).unwrap().public_key();
    assert_eq!(bid.message.public_key.to_bytes(), pk.to_bytes());
    let root = bid.message.hash_tree_root();
    let domain = compute_domain(APPLICATION_BUILDER_DOMAIN_MASK, [0, 0, 0, 0]);
    assert_eq!(verify_root(&pk, root, &bid.signature, domain), Ok(()));
    let cached = b.get_cached_payload([0xab; 32]).expect("cached");
    assert_eq!(cached.transactions, txs);
    // lookups do not remove
    assert!(b.get_cached_payload([0xab; 32]).is_some());
}

#[test]
fn unknown_hash_is_not_cached() {
    let mut b = builder();
    assert!(b.get_cached_payload([1u8; 32]).is_none());
    b.build_new_payload(payload(2, vec![]), [0u8; 32]);
    assert!(b.get_cached_payload([1u8; 32]).is_none());
    assert!(b.get_cached_payload([2u8; 32]).is_some());
}

#[test]
fn rebuilding_a_hash_replaces_the_payload() {
    let mut b = builder();
    b.build_new_payload(payload(2, vec![vec![1]]), [0u8; 32]);
    b.build_new_payload(payload(3, vec![vec![3]]), [0u8; 32]);
    b.build_new_payload(payload(2, vec![vec![2]]), [0u8; 32]);
    assert_eq!(b.get_cached_payload([2u8; 32]).unwrap().transactions, vec![vec![2u8]]);
    assert_eq!(b.get_cached_payload([3u8; 32]).unwrap().transactions, vec![vec![3u8]]);
}

#[test]
fn bid_root_depends_on_header() {
    let mut b = builder();
    let one = b.build_new_payload(payload(1, vec![]), [1u8; 32]);
    let two = b.build_new_payload(payload(2, vec![]), [2u8; 32]);
    assert_ne!(one.message.hash_tree_root(), two.message.hash_tree_root());
}
