//! The local fallback builder: signs a bid for a self-built payload and keeps
//! the payload for a later get-payload call.
use crate::api::{le_bytes, push_u64_le};
use crate::crypto::{bls_public_key_of, bls_signature_of, bls_verify_outcome, sha256, sha256_of};
use crate::signing::{
    bls_dst_spec, compute_domain, domain_of, extend_bytes, signing_root_of, BlsPublicKey,
    BlsSecretKey, APPLICATION_BUILDER_DOMAIN_MASK,
};
use vstd::prelude::*;

verus! {

/// The value of every self-built bid, in wei (one ether): high enough that an
/// aggregator comparing bids by value prefers it.
pub const FALLBACK_BID_VALUE: u64 = 1000000000000000000;

/// Depth of the tree over the blob commitment list (4096 commitments).
pub const BLOB_COMMITMENTS_DEPTH: usize = 12;

/// `n` zero bytes.
pub open spec fn zeros(n: nat) -> Seq<u8> {
    Seq::new(n, |i: int| 0u8)
}

/// The root of a tree of depth `n` whose leaves are zero chunks.
pub open spec fn zero_hash(n: nat) -> Seq<u8>
    decreases n,
{
    if n == 0 {
        zeros(32)
    } else {
        sha256_of(zero_hash((n - 1) as nat) + zero_hash((n - 1) as nat))
    }
}

/// The root of the empty blob commitment list: the zero tree with its
/// length, zero, mixed in.
pub open spec fn empty_commitments_root() -> Seq<u8> {
    sha256_of(zero_hash(BLOB_COMMITMENTS_DEPTH as nat) + zeros(32))
}

/// The root of a 48-byte public key: its bytes padded to two chunks.
pub open spec fn public_key_root(public_key: Seq<u8>) -> Seq<u8> {
    sha256_of(public_key + zeros(16))
}

/// The chunk of a bid value: its little-endian bytes, zero-padded.
pub open spec fn value_chunk(value: u64) -> Seq<u8> {
    le_bytes(value as nat, 8) + zeros(24)
}

/// The merkleized root of a bid: the tree over its four field roots (header,
/// blob commitments, public key, value).
pub open spec fn bid_root(header_root: Seq<u8>, public_key: Seq<u8>, value: u64) -> Seq<u8> {
    sha256_of(
        sha256_of(header_root + empty_commitments_root()) + sha256_of(
            public_key_root(public_key) + value_chunk(value),
        ),
    )
}

/// A self-built execution payload: what the builder logic reads of it.
pub struct ExecutionPayload {
    /// The hash of the sealed block.
    pub block_hash: [u8; 32],
    /// The hash of the block it builds on.
    pub parent_hash: [u8; 32],
    /// The block's number.
    pub block_number: u64,
    /// The raw transactions, in block order.
    pub transactions: Vec<Vec<u8>>,
}

/// A bid for a payload, with no blob commitments.
pub struct BuilderBid {
    /// The merkleized root of the payload's header.
    pub header_root: [u8; 32],
    /// The builder's public key.
    pub public_key: BlsPublicKey,
    /// The bid value, in wei.
    pub value: u64,
}

impl BuilderBid {
    /// The merkleized root of the bid.
    pub fn hash_tree_root(&self) -> (r: [u8; 32])
        ensures
            r@ == bid_root(self.header_root@, self.public_key@, self.value),
    {
        let mut zero = [0u8; 32];
        assert(zero@ =~= zeros(32));
        let mut depth: usize = 0;
        while depth < BLOB_COMMITMENTS_DEPTH
            invariant
                depth <= BLOB_COMMITMENTS_DEPTH,
                zero@ == zero_hash(depth as nat),
            decreases BLOB_COMMITMENTS_DEPTH - depth,
        {
            let mut buf: Vec<u8> = Vec::new();
            extend_bytes(&mut buf, zero.as_slice());
            extend_bytes(&mut buf, zero.as_slice());
            zero = sha256(buf.as_slice());
            depth = depth + 1;
        }
        let zero_chunk = [0u8; 32];
        assert(zero_chunk@ =~= zeros(32));
        let mut buf: Vec<u8> = Vec::new();
        extend_bytes(&mut buf, zero.as_slice());
        extend_bytes(&mut buf, zero_chunk.as_slice());
        let commitments_root = sha256(buf.as_slice());

        let mut left: Vec<u8> = Vec::new();
        extend_bytes(&mut left, self.header_root.as_slice());
        extend_bytes(&mut left, commitments_root.as_slice());
        let left_root = sha256(left.as_slice());

        let key = self.public_key.to_bytes();
        let pad16 = [0u8; 16];
        assert(pad16@ =~= zeros(16));
        let mut key_buf: Vec<u8> = Vec::new();
        extend_bytes(&mut key_buf, key.as_slice());
        extend_bytes(&mut key_buf, pad16.as_slice());
        let key_root = sha256(key_buf.as_slice());

        let pad24 = [0u8; 24];
        assert(pad24@ =~= zeros(24));
        let mut right: Vec<u8> = Vec::new();
        extend_bytes(&mut right, key_root.as_slice());
        push_u64_le(&mut right, self.value);
        extend_bytes(&mut right, pad24.as_slice());
        assert(right@ =~= public_key_root(self.public_key@) + value_chunk(self.value));
        let right_root = sha256(right.as_slice());

        let mut top: Vec<u8> = Vec::new();
        extend_bytes(&mut top, left_root.as_slice());
        extend_bytes(&mut top, right_root.as_slice());
        sha256(top.as_slice())
    }
}

/// A bid with the builder's signature over its root.
pub struct SignedBuilderBid {
    /// The bid.
    pub message: BuilderBid,
    /// The compressed BLS signature.
    pub signature: [u8; 96],
}

/// The most recently cached payload with block hash `hash`, if any.
pub open spec fn latest_with_hash(payloads: Seq<ExecutionPayload>, hash: Seq<u8>) -> Option<ExecutionPayload>
    decreases payloads.len(),
{
    if payloads.len() == 0 {
        None
    } else if payloads.last().block_hash@ == hash {
        Some(payloads.last())
    } else {
        latest_with_hash(payloads.drop_last(), hash)
    }
}

/// The local builder: its signing key, the fork version of its bid domain, and
/// the payloads it built, by block hash.
pub struct LocalBuilder {
    secret_key: BlsSecretKey,
    fork_version: [u8; 4],
    cached_payloads: Vec<ExecutionPayload>,
}

impl LocalBuilder {
    /// The key that signs bids.
    pub closed spec fn signing_key(&self) -> Seq<u8> {
        self.secret_key@
    }

    /// The fork version of the bid domain.
    pub closed spec fn fork(&self) -> Seq<u8> {
        self.fork_version@
    }

    /// The payload cached under `hash`, if any.
    pub closed spec fn cached(&self, hash: Seq<u8>) -> Option<ExecutionPayload> {
        latest_with_hash(self.cached_payloads@, hash)
    }

    /// A builder that signs with `secret_key` under the builder domain of
    /// `fork_version`, with no cached payload.
    pub fn new(secret_key: BlsSecretKey, fork_version: [u8; 4]) -> (r: LocalBuilder)
        ensures
            r.signing_key() == secret_key@,
            r.fork() == fork_version@,
            forall|h: Seq<u8>| r.cached(h) is None,
    {
        LocalBuilder { secret_key, fork_version, cached_payloads: Vec::new() }
    }

    /// Signs a bid for the payload whose header has root `header_root`, at the
    /// fallback value, and caches the payload under its block hash. The bid is
    /// signed under the application-builder domain, as the builder API asks.
    pub fn build_new_payload(&mut self, payload: ExecutionPayload, header_root: [u8; 32]) -> (r:
        SignedBuilderBid)
        ensures
            final(self).signing_key() == old(self).signing_key(),
            final(self).fork() == old(self).fork(),
            r.message.header_root == header_root,
            r.message.public_key@ == bls_public_key_of(old(self).signing_key()),
            r.message.value == FALLBACK_BID_VALUE,
            r.signature@ == bls_signature_of(
                old(self).signing_key(),
                signing_root_of(
                    bid_root(header_root@, r.message.public_key@, FALLBACK_BID_VALUE),
                    domain_of(APPLICATION_BUILDER_DOMAIN_MASK@, old(self).fork()),
                ),
                bls_dst_spec(),
            ),
            bls_verify_outcome(
                r.message.public_key@,
                signing_root_of(
                    bid_root(header_root@, r.message.public_key@, FALLBACK_BID_VALUE),
                    domain_of(APPLICATION_BUILDER_DOMAIN_MASK@, old(self).fork()),
                ),
                bls_dst_spec(),
                r.signature@,
            ) == Some(true),
            final(self).cached(payload.block_hash@) == Some(payload),
            forall|h: Seq<u8>| h != payload.block_hash@ ==> final(self).cached(h) == old(self).cached(h),
    {
        let signed_bid = self.create_signed_builder_bid(FALLBACK_BID_VALUE, header_root);
        self.insert_payload(payload);
        signed_bid
    }

    /// A bid for the header with root `header_root` at `value`, signed by the
    /// builder's key.
    fn create_signed_builder_bid(&self, value: u64, header_root: [u8; 32]) -> (r: SignedBuilderBid)
        ensures
            r.message.header_root == header_root,
            r.message.public_key@ == bls_public_key_of(self.signing_key()),
            r.message.value == value,
            r.signature@ == bls_signature_of(
                self.signing_key(),
                signing_root_of(
                    bid_root(header_root@, r.message.public_key@, value),
                    domain_of(APPLICATION_BUILDER_DOMAIN_MASK@, self.fork()),
                ),
                bls_dst_spec(),
            ),
            bls_verify_outcome(
                r.message.public_key@,
                signing_root_of(
                    bid_root(header_root@, r.message.public_key@, value),
                    domain_of(APPLICATION_BUILDER_DOMAIN_MASK@, self.fork()),
                ),
                bls_dst_spec(),
                r.signature@,
            ) == Some(true),
    {
        let submission = BuilderBid { header_root, public_key: self.secret_key.public_key(), value };
        let root = submission.hash_tree_root();
        let domain = compute_domain(APPLICATION_BUILDER_DOMAIN_MASK, self.fork_version);
        let signature = self.secret_key.sign(root, domain);
        SignedBuilderBid { message: submission, signature }
    }

    /// Caches `payload` under its block hash.
    fn insert_payload(&mut self, payload: ExecutionPayload)
        ensures
            final(self).signing_key() == old(self).signing_key(),
            final(self).fork() == old(self).fork(),
            final(self).cached(payload.block_hash@) == Some(payload),
            forall|h: Seq<u8>| h != payload.block_hash@ ==> final(self).cached(h) == old(self).cached(h),
    {
        let ghost before = self.cached_payloads@;
        self.cached_payloads.push(payload);
        assert(self.cached_payloads@.drop_last() =~= before);
    }

    /// The payload cached under `hash`, if any; the cache is left as it is.
    pub fn get_cached_payload(&self, hash: [u8; 32]) -> (r: Option<&ExecutionPayload>)
        ensures
            r matches Some(p) ==> self.cached(hash@) == Some(*p),
            r is None ==> self.cached(hash@) is None,
    {
        let mut i: usize = self.cached_payloads.len();
        assert(self.cached_payloads@.subrange(0, i as int) =~= self.cached_payloads@);
        while i > 0
            invariant
                i <= self.cached_payloads@.len(),
                latest_with_hash(self.cached_payloads@, hash@) == latest_with_hash(
                    self.cached_payloads@.subrange(0, i as int),
                    hash@,
                ),
            decreases i,
        {
            let ghost prefix = self.cached_payloads@.subrange(0, i as int);
            assert(prefix.drop_last() =~= self.cached_payloads@.subrange(0, i - 1));
            if bytes32_equal(&self.cached_payloads[i - 1].block_hash, &hash) {
                return Some(&self.cached_payloads[i - 1]);
            }
            i = i - 1;
        }
        None
    }
}

/// Whether two 32-byte strings are equal.
fn bytes32_equal(a: &[u8; 32], b: &[u8; 32]) -> (r: bool)
    ensures
        r == (a@ == b@),
{
    let mut i: usize = 0;
    while i < 32
        invariant
            i <= 32,
            forall|j: int| 0 <= j < i ==> a@[j] == b@[j],
        decreases 32 - i,
    {
        if a[i] != b[i] {
            return false;
        }
        i = i + 1;
    }
    assert(a@ =~= b@);
    true
}

} // verus!
