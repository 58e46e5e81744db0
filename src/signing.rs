//! Domain-separated signing roots and BLS signatures over them.
use crate::crypto::{
    bls_public_key_check, bls_public_key_of, bls_public_key_parse, bls_secret_key_check,
    bls_secret_key_ok, bls_secret_to_public, bls_sign, bls_signature_of, bls_verify,
    bls_verify_outcome, decode_hex, hex_decoded, is_hex, sha256, sha256_of,
};
use vstd::prelude::*;
use vstd::string::StringSliceAdditionalSpecFns;

verus! {

/// The domain mask of messages for the relay-facing (commit-boost) signer.
pub const COMMIT_BOOST_DOMAIN_MASK: [u8; 4] = [109, 109, 111, 67];

/// The domain mask of builder-API messages (builder bids).
pub const APPLICATION_BUILDER_DOMAIN_MASK: [u8; 4] = [0, 0, 0, 1];

/// The root of the fork data made of `fork_version` and a zero genesis
/// validators root: the version padded to one chunk, then the zero chunk.
pub open spec fn fork_data_root(fork_version: Seq<u8>) -> Seq<u8> {
    sha256_of(fork_version + Seq::new(60, |i: int| 0u8))
}

/// A domain: the mask, then the first 28 bytes of the fork data root.
pub open spec fn domain_of(mask: Seq<u8>, fork_version: Seq<u8>) -> Seq<u8> {
    mask + fork_data_root(fork_version).subrange(0, 28)
}

/// The signing root of a message root under a domain.
pub open spec fn signing_root_of(root: Seq<u8>, domain: Seq<u8>) -> Seq<u8> {
    sha256_of(root + domain)
}

/// The ciphersuite tag of proof-of-possession BLS signatures on G2.
pub open spec fn bls_dst_spec() -> Seq<u8> {
    seq![
        66, 76, 83, 95, 83, 73, 71, 95, 66, 76, 83, 49, 50, 51, 56, 49, 71, 50, 95, 88, 77, 68,
        58, 83, 72, 65, 45, 50, 53, 54, 95, 83, 83, 87, 85, 95, 82, 79, 95, 80, 79, 80, 95,
    ]
}

/// Drops a leading "0x".
pub open spec fn strip_hex_prefix(s: Seq<u8>) -> Seq<u8> {
    if s.len() >= 2 && s[0] == 48 && s[1] == 120 {
        s.subrange(2, s.len() as int)
    } else {
        s
    }
}

/// Why a key could not be read or a signature did not check.
#[derive(Debug, Clone, Copy, PartialEq, Eq)]
pub enum SigningError {
    /// The key text is not a string of hexadecimal digit pairs.
    InvalidHex,
    /// The key bytes are not a valid compressed BLS public key.
    InvalidPublicKey,
    /// The public key does not decode as a curve point.
    MalformedPublicKey,
    /// The signature is not valid for this key and signing root.
    SignatureMismatch,
}

/// The ciphersuite tag of proof-of-possession BLS signatures on G2.
pub fn bls_dst() -> (r: Vec<u8>)
    ensures
        r@ == bls_dst_spec(),
{
    let r = vec![
        66u8, 76, 83, 95, 83, 73, 71, 95, 66, 76, 83, 49, 50, 51, 56, 49, 71, 50, 95, 88, 77, 68,
        58, 83, 72, 65, 45, 50, 53, 54, 95, 83, 83, 87, 85, 95, 82, 79, 95, 80, 79, 80, 95,
    ];
    assert(r@ =~= bls_dst_spec());
    r
}

/// Appends every byte of `src` to `buf`.
pub fn extend_bytes(buf: &mut Vec<u8>, src: &[u8])
    ensures
        final(buf)@ == old(buf)@ + src@,
{
    let mut i: usize = 0;
    while i < src.len()
        invariant
            i <= src@.len(),
            buf@ == old(buf)@ + src@.subrange(0, i as int),
        decreases src@.len() - i,
    {
        buf.push(src[i]);
        i = i + 1;
        assert(buf@ =~= old(buf)@ + src@.subrange(0, i as int));
    }
    assert(src@.subrange(0, src@.len() as int) =~= src@);
}

/// The root of the fork data of `fork_version` with a zero genesis validators root.
pub fn compute_fork_data_root(fork_version: [u8; 4]) -> (r: [u8; 32])
    ensures
        r@ == fork_data_root(fork_version@),
{
    let mut buf: Vec<u8> = Vec::new();
    extend_bytes(&mut buf, fork_version.as_slice());
    let zeros = [0u8; 60];
    extend_bytes(&mut buf, zeros.as_slice());
    assert(zeros@ =~= Seq::new(60, |i: int| 0u8));
    sha256(buf.as_slice())
}

/// The domain of `mask` for `fork_version`: the mask followed by the first 28
/// bytes of the fork data root (zero genesis validators root).
pub fn compute_domain(mask: [u8; 4], fork_version: [u8; 4]) -> (r: [u8; 32])
    ensures
        r@ == domain_of(mask@, fork_version@),
{
    let fork_root = compute_fork_data_root(fork_version);
    let mut domain = [0u8; 32];
    let mut i: usize = 0;
    while i < 32
        invariant
            i <= 32,
            fork_root@ == fork_data_root(fork_version@),
            forall|j: int| 0 <= j < i ==> #[trigger] domain@[j] == domain_of(mask@, fork_version@)[j],
        decreases 32 - i,
    {
        if i < 4 {
            domain[i] = mask[i];
        } else {
            domain[i] = fork_root[i - 4];
        }
        i = i + 1;
    }
    assert(domain@ =~= domain_of(mask@, fork_version@));
    domain
}

/// The commit-boost domain for `fork_version`.
pub fn compute_domain_from_mask(fork_version: [u8; 4]) -> (r: [u8; 32])
    ensures
        r@ == domain_of(COMMIT_BOOST_DOMAIN_MASK@, fork_version@),
{
    compute_domain(COMMIT_BOOST_DOMAIN_MASK, fork_version)
}

/// The signing root of a message root under a domain.
pub fn compute_signing_root(root: [u8; 32], domain: [u8; 32]) -> (r: [u8; 32])
    ensures
        r@ == signing_root_of(root@, domain@),
{
    let mut buf: Vec<u8> = Vec::new();
    extend_bytes(&mut buf, root.as_slice());
    extend_bytes(&mut buf, domain.as_slice());
    sha256(buf.as_slice())
}

/// The signing root of `message` under the commit-boost domain of `fork_version`.
pub fn compute_commit_boost_signing_root(message: [u8; 32], fork_version: [u8; 4]) -> (r: [u8; 32])
    ensures
        r@ == signing_root_of(message@, domain_of(COMMIT_BOOST_DOMAIN_MASK@, fork_version@)),
{
    let domain = compute_domain_from_mask(fork_version);
    compute_signing_root(message, domain)
}

/// A BLS secret key, held as its 32 bytes.
pub struct BlsSecretKey {
    bytes: [u8; 32],
}

impl View for BlsSecretKey {
    type V = Seq<u8>;

    closed spec fn view(&self) -> Seq<u8> {
        self.bytes@
    }
}

impl BlsSecretKey {
    #[verifier::type_invariant]
    spec fn inv(&self) -> bool {
        bls_secret_key_ok(self.bytes@)
    }

    /// The key that `bytes` encode, or `None` where they encode none.
    pub fn from_bytes(bytes: [u8; 32]) -> (r: Option<BlsSecretKey>)
        ensures
            r is Some <==> bls_secret_key_ok(bytes@),
            r matches Some(k) ==> k@ == bytes@,
    {
        if bls_secret_key_check(&bytes) {
            Some(BlsSecretKey { bytes })
        } else {
            None
        }
    }

    /// The public key of this secret key.
    pub fn public_key(&self) -> (r: BlsPublicKey)
        ensures
            r@ == bls_public_key_of(self@),
    {
        proof {
            use_type_invariant(self);
        }
        BlsPublicKey { bytes: bls_secret_to_public(&self.bytes) }
    }

    /// Signs the signing root of `root` under `domain`.
    pub fn sign(&self, root: [u8; 32], domain: [u8; 32]) -> (r: [u8; 96])
        ensures
            r@ == bls_signature_of(self@, signing_root_of(root@, domain@), bls_dst_spec()),
            bls_verify_outcome(
                bls_public_key_of(self@),
                signing_root_of(root@, domain@),
                bls_dst_spec(),
                r@,
            ) == Some(true),
    {
        proof {
            use_type_invariant(self);
        }
        let signing_root = compute_signing_root(root, domain);
        let dst = bls_dst();
        bls_sign(&self.bytes, signing_root.as_slice(), dst.as_slice())
    }
}

/// A BLS public key, held in compressed form.
pub struct BlsPublicKey {
    bytes: [u8; 48],
}

impl View for BlsPublicKey {
    type V = Seq<u8>;

    closed spec fn view(&self) -> Seq<u8> {
        self.bytes@
    }
}

impl BlsPublicKey {
    /// The key that `bytes` encode, after validation, in compressed form.
    pub fn from_bytes(bytes: &[u8]) -> (r: Option<BlsPublicKey>)
        ensures
            r is None <==> bls_public_key_parse(bytes@) is None,
            r matches Some(k) ==> bls_public_key_parse(bytes@) == Some(k@),
    {
        match bls_public_key_check(bytes) {
            Some(k) => Some(BlsPublicKey { bytes: k }),
            None => None,
        }
    }

    /// The compressed bytes of this key.
    pub fn to_bytes(&self) -> (r: [u8; 48])
        ensures
            r@ == self@,
    {
        self.bytes
    }
}

/// The outcome that `verify_root` reports for an outcome of the check.
pub open spec fn verify_result(outcome: Option<bool>) -> Result<(), SigningError> {
    match outcome {
        Some(true) => Ok(()),
        Some(false) => Err(SigningError::SignatureMismatch),
        None => Err(SigningError::MalformedPublicKey),
    }
}

/// Checks `signature` against `pubkey` over the signing root of `root` under `domain`.
pub fn verify_root(pubkey: &BlsPublicKey, root: [u8; 32], signature: &[u8; 96], domain: [u8; 32]) -> (r:
    Result<(), SigningError>)
    ensures
        r == verify_result(
            bls_verify_outcome(pubkey@, signing_root_of(root@, domain@), bls_dst_spec(), signature@),
        ),
{
    let signing_root = compute_signing_root(root, domain);
    let dst = bls_dst();
    match bls_verify(&pubkey.bytes, signing_root.as_slice(), dst.as_slice(), signature) {
        Some(true) => Ok(()),
        Some(false) => Err(SigningError::SignatureMismatch),
        None => Err(SigningError::MalformedPublicKey),
    }
}

/// Checks `signature` against `pubkey` under the commit-boost domain of `fork_version`.
pub fn verify_commit_boost_root(
    pubkey: &BlsPublicKey,
    root: [u8; 32],
    signature: &[u8; 96],
    fork_version: [u8; 4],
) -> (r: Result<(), SigningError>)
    ensures
        r == verify_result(
            bls_verify_outcome(
                pubkey@,
                signing_root_of(root@, domain_of(COMMIT_BOOST_DOMAIN_MASK@, fork_version@)),
                bls_dst_spec(),
                signature@,
            ),
        ),
{
    let domain = compute_domain_from_mask(fork_version);
    verify_root(pubkey, root, signature, domain)
}

/// Reads a compressed BLS public key from hexadecimal text, with or without a
/// leading "0x".
pub fn parse_bls_public_key(pubkey: &str) -> (r: Result<BlsPublicKey, SigningError>)
    ensures
        !is_hex(strip_hex_prefix(pubkey.spec_bytes())) ==> r == Err::<BlsPublicKey, SigningError>(
            SigningError::InvalidHex,
        ),
        is_hex(strip_hex_prefix(pubkey.spec_bytes())) ==> match bls_public_key_parse(
            hex_decoded(strip_hex_prefix(pubkey.spec_bytes())),
        ) {
            None => r == Err::<BlsPublicKey, SigningError>(SigningError::InvalidPublicKey),
            Some(k) => r matches Ok(pk) && pk@ == k,
        },
{
    let text = pubkey.as_bytes();
    let mut digits: Vec<u8> = Vec::new();
    let start: usize = if text.len() >= 2 && text[0] == 48 && text[1] == 120 {
        2
    } else {
        0
    };
    let mut i: usize = start;
    while i < text.len()
        invariant
            start <= i <= text@.len(),
            digits@ == text@.subrange(start as int, i as int),
        decreases text@.len() - i,
    {
        digits.push(text[i]);
        i = i + 1;
        assert(digits@ =~= text@.subrange(start as int, i as int));
    }
    assert(digits@ =~= strip_hex_prefix(text@));
    match decode_hex(digits.as_slice()) {
        None => Err(SigningError::InvalidHex),
        Some(bytes) => match BlsPublicKey::from_bytes(bytes.as_slice()) {
            Some(k) => Ok(k),
            None => Err(SigningError::InvalidPublicKey),
        },
    }
}

/// A domain is a function of its mask and fork version, and two different
/// masks give two different domains for the same fork version.
pub proof fn lemma_domain_separates_masks(mask_a: [u8; 4], mask_b: [u8; 4], fork_version: [u8; 4])
    ensures
        mask_a@ == mask_b@ ==> domain_of(mask_a@, fork_version@) == domain_of(mask_b@, fork_version@),
        mask_a@ != mask_b@ ==> domain_of(mask_a@, fork_version@) != domain_of(mask_b@, fork_version@),
{
    let da = domain_of(mask_a@, fork_version@);
    let db = domain_of(mask_b@, fork_version@);
    if mask_a@ != mask_b@ && da == db {
        assert forall|k: int| 0 <= k < 4 implies mask_a@[k] == mask_b@[k] by {
            assert(da[k] == mask_a@[k]);
            assert(db[k] == mask_b@[k]);
        }
        assert(mask_a@ =~= mask_b@);
    }
}

} // verus!
