use alloy_consensus::{SignableTransaction, TxEnvelope, TxLegacy};
use alloy_eips::eip2718::Encodable2718;
use alloy_primitives::{eip191_hash_message, Address, Bytes, TxKind, U256};
use bolt::api::{
    parse_inclusion_request, ApiError, CommitmentRequest, InclusionRequest, JsonRpcApi,
};
use bolt::signing::{verify_commit_boost_root, BlsSecretKey};
use k256::ecdsa::SigningKey;

const FORK: [u8; 4] = [1, 1, 112, 0];

fn wallet(byte: u8) -> SigningKey {
    SigningKey::from_slice(&[byte; 32]).expect("valid wallet key")
}

fn sign_prehash(key: &SigningKey, hash: &[u8]) -> alloy_primitives::Signature {
    let (sig, recid) = key.sign_prehash_recoverable(hash).expect("signs");
    let bytes = sig.to_bytes();
    alloy_primitives::Signature::new(
        U256::from_be_slice(&bytes[..32]),
        U256::from_be_slice(&bytes[32..]),
        recid.is_y_odd(),
    )
}

fn raw_transaction(key: &SigningKey, nonce: u64) -> Vec<u8> {
    let tx = TxLegacy {
        chain_id: Some(17000),
        nonce,
        gas_price: 1_000_000_000,
        gas_limit: 21_000,
        to: TxKind::Call(Address::repeat_byte(0x11)),
        value: U256::from(1u64),
        input: Bytes::new(),
    };
    let sig = sign_prehash(key, tx.signature_hash().as_slice());
    TxEnvelope::Legacy(tx.into_signed(sig)).encoded_2718()
}

fn request(slot: u64, tx: Vec<u8>, signer: &SigningKey) -> InclusionRequest {
    let unsigned = InclusionRequest { slot, tx: tx.clone(), signature: [0u8; 65] };
    let digest = unsigned.digest();
    let sig = sign_prehash(signer, eip191_hash_message(digest).as_slice());
    InclusionRequest { slot, tx, signature: sig.as_bytes() }
}

fn gateway() -> (JsonRpcApi, BlsSecretKey) {
    let key = BlsSecretKey::from_bytes([5u8; 32]).expect("valid secret key");
    let again = BlsSecretKey::from_bytes([5u8; 32]).expect("valid secret key");
    (JsonRpcApi::new(key, 0, FORK), again)
}

#[test]
fn accepted_request_is_signed_for_its_slot() {
    let (mut api, key) = gateway();
    let alice = wallet(0x42);
    let tx = raw_transaction(&alice, 0);
    let req = request(100, tx.clone(), &alice);
    let signed = api
        .request_inclusion_commitment(CommitmentRequest::Inclusion(req))
        .expect("accepted");
    assert_eq!(signed.message.slot, 100);
    assert_eq!(signed.message.validator_index, 0);
    assert_eq!(signed.message.constraints.len(), 1);
    assert_eq!(signed.message.constraints[0].tx, tx);
    let root = signed.message.digest();
    assert_eq!(
        verify_commit_boost_root(&key.public_key(), root, &signed.signature, FORK),
        Ok(())
    );
    assert_eq!(api.cache().bucket(100).map(|b| b.len()), Some(1));
}

#[test]
fn resubmitted_request_is_a_duplicate() {
    let (mut api, _) = gateway();
    let alice = wallet(0x42);
    let tx = raw_transaction(&alice, 0);
    let first = api.request_inclusion_commitment(CommitmentRequest::Inclusion(request(100, tx.clone(), &alice)));
    assert!(first.is_ok());
    let second = api.request_inclusion_commitment(CommitmentRequest::Inclusion(request(100, tx.clone(), &alice)));
    assert_eq!(second.err(), Some(ApiError::DuplicateRequest));
    let other_slot = api.request_inclusion_commitment(CommitmentRequest::Inclusion(request(101, tx, &alice)));
    assert!(other_slot.is_ok());
}

#[test]
fn request_signed_by_another_key_is_refused() {
    let (mut api, _) = gateway();
    let alice = wallet(0x42);
    let mallory = wallet(0x43);
    let tx = raw_transaction(&alice, 0);
    let result = api.request_inclusion_commitment(CommitmentRequest::Inclusion(request(100, tx, &mallory)));
    assert_eq!(result.err(), Some(ApiError::SignerMismatch));
    assert!(api.cache().bucket(100).is_none());
}

#[test]
fn undecodable_transaction_is_refused() {
    let (mut api, _) = gateway();
    let alice = wallet(0x42);
    let result = api.request_inclusion_commitment(CommitmentRequest::Inclusion(request(100, vec![0x12, 0x34], &alice)));
    assert_eq!(result.err(), Some(ApiError::InvalidTransaction));
    assert!(api.cache().bucket(100).is_none());
}

#[test]
fn unrecoverable_request_signature_is_refused() {
    let (mut api, _) = gateway();
    let alice = wallet(0x42);
    let tx = raw_transaction(&alice, 0);
    let req = InclusionRequest { slot: 100, tx, signature: [0u8; 65] };
    let result = api.request_inclusion_commitment(CommitmentRequest::Inclusion(req));
    assert_eq!(result.err(), Some(ApiError::InvalidSignature));
}

#[test]
fn parse_request_fields() {
    let req = parse_inclusion_request(1, "0x1234", &format!("0x{}", "56".repeat(65))).expect("parses");
    assert_eq!(req.slot, 1);
    assert_eq!(req.tx, vec![0x12, 0x34]);
    assert_eq!(req.signature, [0x56u8; 65]);
}

#[test]
fn parse_request_rejects_bad_hex_and_short_signature() {
    assert_eq!(parse_inclusion_request(1, "0x123", "0x5678").err(), Some(ApiError::DecodeHex));
    assert_eq!(parse_inclusion_request(1, "0x1234", "0xzz").err(), Some(ApiError::DecodeHex));
    assert_eq!(parse_inclusion_request(1, "0x1234", "0x5678").err(), Some(ApiError::InvalidSignature));
}

#[test]
fn request_digest_value() {
    let req = InclusionRequest { slot: 1, tx: vec![0x12, 0x34], signature: [0u8; 65] };
    let mut data = 1u64.to_le_bytes().to_vec();
    data.extend_from_slice(alloy_primitives::keccak256([0x12u8, 0x34]).as_slice());
    assert_eq!(req.digest(), alloy_primitives::keccak256(&data).0);
}
