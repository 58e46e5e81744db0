//! Calls into the hashing and signature crates, each with the contract that the
//! rest of the library relies on.
use alloy_consensus::transaction::SignerRecoverable;
use alloy_eips::eip2718::Decodable2718;
use sha2::Digest;
use vstd::prelude::*;

verus! {

/// The SHA-256 digest of a byte string.
pub uninterp spec fn sha256_of(data: Seq<u8>) -> Seq<u8>;

/// The public key, in compressed form, that belongs to a BLS secret key.
pub uninterp spec fn bls_public_key_of(secret: Seq<u8>) -> Seq<u8>;

/// Whether a 32-byte string encodes a usable BLS secret key.
pub uninterp spec fn bls_secret_key_ok(secret: Seq<u8>) -> bool;

/// The compressed BLS signature of `msg` under `secret`, with tag `dst`.
pub uninterp spec fn bls_signature_of(secret: Seq<u8>, msg: Seq<u8>, dst: Seq<u8>) -> Seq<u8>;

/// The compressed form of a public key that passes validation, or `None`.
pub uninterp spec fn bls_public_key_parse(bytes: Seq<u8>) -> Option<Seq<u8>>;

/// The outcome of checking a signature: `None` when the public key does not
/// decode, else whether the signature is valid for the key, message and tag.
pub uninterp spec fn bls_verify_outcome(
    public_key: Seq<u8>,
    msg: Seq<u8>,
    dst: Seq<u8>,
    sig: Seq<u8>,
) -> Option<bool>;

/// Relies on sha2's `Sha256::digest`.
#[verifier::external_body]
pub fn sha256(data: &[u8]) -> (r: [u8; 32])
    ensures
        r@ == sha256_of(data@),
{
    sha2::Sha256::digest(data).into()
}

/// Relies on blst's `min_pk::SecretKey::from_bytes`: whether it accepts the bytes.
#[verifier::external_body]
pub fn bls_secret_key_check(secret: &[u8; 32]) -> (r: bool)
    ensures
        r == bls_secret_key_ok(secret@),
{
    blst::min_pk::SecretKey::from_bytes(secret).is_ok()
}

/// Relies on blst's `min_pk::SecretKey::sk_to_pk` and `PublicKey::compress`.
#[verifier::external_body]
pub fn bls_secret_to_public(secret: &[u8; 32]) -> (r: [u8; 48])
    requires
        bls_secret_key_ok(secret@),
    ensures
        r@ == bls_public_key_of(secret@),
{
    blst::min_pk::SecretKey::from_bytes(secret).unwrap().sk_to_pk().compress()
}

/// Relies on blst's `min_pk::SecretKey::sign` (no augmentation) and
/// `Signature::compress`. A signature made with a secret key verifies under
/// that key's public key for the same message and tag.
#[verifier::external_body]
pub fn bls_sign(secret: &[u8; 32], msg: &[u8], dst: &[u8]) -> (r: [u8; 96])
    requires
        bls_secret_key_ok(secret@),
    ensures
        r@ == bls_signature_of(secret@, msg@, dst@),
        bls_verify_outcome(bls_public_key_of(secret@), msg@, dst@, r@) == Some(true),
{
    blst::min_pk::SecretKey::from_bytes(secret).unwrap().sign(msg, dst, &[]).compress()
}

/// Relies on blst's `min_pk::PublicKey::key_validate` and `PublicKey::compress`.
#[verifier::external_body]
pub fn bls_public_key_check(bytes: &[u8]) -> (r: Option<[u8; 48]>)
    ensures
        r matches Some(k) ==> bls_public_key_parse(bytes@) == Some(k@),
        r is None <==> bls_public_key_parse(bytes@) is None,
{
    match blst::min_pk::PublicKey::key_validate(bytes) {
        Ok(pk) => Some(pk.compress()),
        Err(_) => None,
    }
}

/// Relies on blst's `min_pk::PublicKey::from_bytes`, `Signature::from_bytes` and
/// `Signature::verify` with group checks on both signature and key. A signature
/// that does not decode does not verify.
#[verifier::external_body]
pub fn bls_verify(public_key: &[u8; 48], msg: &[u8], dst: &[u8], sig: &[u8; 96]) -> (r: Option<bool>)
    ensures
        r == bls_verify_outcome(public_key@, msg@, dst@, sig@),
{
    let pk = match blst::min_pk::PublicKey::from_bytes(public_key) {
        Ok(pk) => pk,
        Err(_) => return None,
    };
    match blst::min_pk::Signature::from_bytes(sig) {
        Ok(s) => Some(s.verify(true, msg, dst, &[], &pk, true) == blst::BLST_ERROR::BLST_SUCCESS),
        Err(_) => Some(false),
    }
}

/// The Keccak-256 digest of a byte string.
pub uninterp spec fn keccak_of(data: Seq<u8>) -> Seq<u8>;

/// The address that signed a raw (EIP-2718) transaction, or `None` where the
/// bytes do not decode to exactly one transaction or its signature does not recover.
pub uninterp spec fn tx_sender_of(tx: Seq<u8>) -> Option<Seq<u8>>;

/// The address whose key made the 65-byte signature `sig` over the EIP-191
/// hash of `msg`, or `None` where it does not recover.
pub uninterp spec fn message_signer_of(sig: Seq<u8>, msg: Seq<u8>) -> Option<Seq<u8>>;

/// Relies on alloy-primitives' `keccak256`.
#[verifier::external_body]
pub fn keccak256(data: &[u8]) -> (r: [u8; 32])
    ensures
        r@ == keccak_of(data@),
{
    alloy_primitives::keccak256(data).0
}

/// Relies on alloy-eips' `Decodable2718::decode_2718_exact` for alloy-consensus'
/// `TxEnvelope`, then on `SignerRecoverable::recover_signer`.
#[verifier::external_body]
pub fn recover_tx_sender(tx: &[u8]) -> (r: Option<[u8; 20]>)
    ensures
        r is Some <==> tx_sender_of(tx@) is Some,
        r matches Some(a) ==> tx_sender_of(tx@) == Some(a@),
{
    let envelope = alloy_consensus::TxEnvelope::decode_2718_exact(tx).ok()?;
    envelope.recover_signer().ok().map(|a| a.0 .0)
}

/// Relies on alloy-primitives' `Signature::from_raw_array` and
/// `Signature::recover_address_from_msg`.
#[verifier::external_body]
pub fn recover_message_signer(sig: &[u8; 65], msg: &[u8]) -> (r: Option<[u8; 20]>)
    ensures
        r is Some <==> message_signer_of(sig@, msg@) is Some,
        r matches Some(a) ==> message_signer_of(sig@, msg@) == Some(a@),
{
    let signature = alloy_primitives::Signature::from_raw_array(sig).ok()?;
    signature.recover_address_from_msg(msg).ok().map(|a| a.0 .0)
}

/// Whether `c` is an ASCII hexadecimal digit, in either case.
pub open spec fn is_hex_digit(c: u8) -> bool {
    (48 <= c <= 57) || (97 <= c <= 102) || (65 <= c <= 70)
}

/// The value of an ASCII hexadecimal digit.
pub open spec fn hex_digit_value(c: u8) -> int {
    if 48 <= c <= 57 {
        c - 48
    } else if 97 <= c <= 102 {
        c - 87
    } else {
        c - 55
    }
}

/// Whether `s` is a string of hexadecimal digit pairs.
pub open spec fn is_hex(s: Seq<u8>) -> bool {
    s.len() % 2 == 0 && forall|i: int| 0 <= i < s.len() ==> is_hex_digit(#[trigger] s[i])
}

/// The bytes that a string of hexadecimal digit pairs spells, high digit first.
pub open spec fn hex_decoded(s: Seq<u8>) -> Seq<u8> {
    Seq::new(
        s.len() / 2,
        |i: int| (16 * hex_digit_value(s[2 * i]) + hex_digit_value(s[2 * i + 1])) as u8,
    )
}

/// Relies on hex's `decode`: it accepts exactly an even number of digits of
/// either case and reads each pair as one byte, high digit first.
#[verifier::external_body]
pub fn decode_hex(s: &[u8]) -> (r: Option<Vec<u8>>)
    ensures
        r is Some <==> is_hex(s@),
        r matches Some(b) ==> b@ == hex_decoded(s@),
{
    hex::decode(s).ok()
}

} // verus!
