//! The commitment-request gateway: authenticates a request, deduplicates it
//! per slot, and signs the resulting constraints for the relay.
use crate::crypto::{
    bls_signature_of, decode_hex, hex_decoded, is_hex, keccak256, keccak_of, message_signer_of,
    recover_message_signer, recover_tx_sender, tx_sender_of,
};
use crate::dedup::{
    commitment_key, entries_after, is_duplicate, order_after, DedupCache,
    DEFAULT_API_REQUEST_CACHE_SIZE,
};
use crate::signing::{
    bls_dst_spec, compute_domain_from_mask, domain_of, extend_bytes, signing_root_of,
    strip_hex_prefix, BlsSecretKey, COMMIT_BOOST_DOMAIN_MASK,
};
use vstd::prelude::*;
use vstd::string::StringSliceAdditionalSpecFns;

verus! {

/// The `n` low bytes of `v`, least significant first.
pub open spec fn le_bytes(v: nat, n: nat) -> Seq<u8>
    decreases n,
{
    if n == 0 {
        Seq::empty()
    } else {
        seq![(v % 256) as u8] + le_bytes(v / 256, (n - 1) as nat)
    }
}

/// Appends the eight little-endian bytes of `v` to `buf`.
pub fn push_u64_le(buf: &mut Vec<u8>, v: u64)
    ensures
        final(buf)@ == old(buf)@ + le_bytes(v as nat, 8),
{
    let mut rem: u64 = v;
    let mut i: usize = 0;
    while i < 8
        invariant
            i <= 8,
            old(buf)@ + le_bytes(v as nat, 8) == buf@ + le_bytes(rem as nat, (8 - i) as nat),
        decreases 8 - i,
    {
        let ghost before = buf@;
        let byte = (rem % 256) as u8;
        buf.push(byte);
        assert(le_bytes(rem as nat, (8 - i) as nat) == seq![byte] + le_bytes(
            (rem / 256) as nat,
            (8 - i - 1) as nat,
        ));
        assert(before + (seq![byte] + le_bytes((rem / 256) as nat, (8 - i - 1) as nat)) =~= buf@
            + le_bytes((rem / 256) as nat, (8 - i - 1) as nat));
        rem = rem / 256;
        i = i + 1;
    }
    assert(buf@ + le_bytes(rem as nat, 0) =~= buf@);
}

/// A request to include a transaction in the block of a slot.
pub struct InclusionRequest {
    /// The slot whose block should hold the transaction.
    pub slot: u64,
    /// The raw signed transaction.
    pub tx: Vec<u8>,
    /// The requester's 65-byte signature over the request digest.
    pub signature: [u8; 65],
}

/// The digest that a requester signs: the Keccak-256 of the slot (eight
/// little-endian bytes) followed by the transaction hash.
pub open spec fn request_digest(slot: u64, tx: Seq<u8>) -> Seq<u8> {
    keccak_of(le_bytes(slot as nat, 8) + keccak_of(tx))
}

impl InclusionRequest {
    /// The digest that the requester signs.
    pub fn digest(&self) -> (r: [u8; 32])
        ensures
            r@ == request_digest(self.slot, self.tx@),
    {
        let mut buf: Vec<u8> = Vec::new();
        push_u64_le(&mut buf, self.slot);
        let tx_hash = keccak256(self.tx.as_slice());
        extend_bytes(&mut buf, tx_hash.as_slice());
        keccak256(buf.as_slice())
    }
}

/// A commitment request, by kind.
pub enum CommitmentRequest {
    /// A request to include a transaction in a slot.
    Inclusion(InclusionRequest),
}

/// The inclusion request that a commitment request carries.
pub open spec fn inclusion_of(request: CommitmentRequest) -> InclusionRequest {
    match request {
        CommitmentRequest::Inclusion(r) => r,
    }
}

impl CommitmentRequest {
    /// The inclusion request, for a request of that kind.
    pub fn as_inclusion_request(&self) -> (r: Option<&InclusionRequest>)
        ensures
            r matches Some(i) && *i == inclusion_of(*self),
    {
        match self {
            CommitmentRequest::Inclusion(r) => Some(r),
        }
    }
}

/// The hashes of the requests' transactions, one after another.
pub open spec fn tx_hashes(constraints: Seq<InclusionRequest>) -> Seq<u8>
    decreases constraints.len(),
{
    if constraints.len() == 0 {
        Seq::empty()
    } else {
        tx_hashes(constraints.drop_last()) + keccak_of(constraints.last().tx@)
    }
}

/// The root of a constraints message that the sidecar signs: the Keccak-256
/// of validator index and slot (eight little-endian bytes each) followed by
/// the hash of each constrained transaction.
pub open spec fn constraints_root(validator_index: u64, slot: u64, constraints: Seq<InclusionRequest>) -> Seq<u8> {
    keccak_of(le_bytes(validator_index as nat, 8) + le_bytes(slot as nat, 8) + tx_hashes(constraints))
}

/// The constraints that a proposer commits to for one slot.
pub struct ConstraintsMessage {
    /// The index of the committing validator.
    pub validator_index: u64,
    /// The slot the constraints are for.
    pub slot: u64,
    /// The requests, in order.
    pub constraints: Vec<InclusionRequest>,
}

impl ConstraintsMessage {
    /// The message of `validator_index` that holds the single `request`.
    pub fn build(validator_index: u64, request: InclusionRequest) -> (r: ConstraintsMessage)
        ensures
            r.validator_index == validator_index,
            r.slot == request.slot,
            r.constraints@ == seq![request],
    {
        let slot = request.slot;
        ConstraintsMessage { validator_index, slot, constraints: vec![request] }
    }

    /// The root that the sidecar signs.
    pub fn digest(&self) -> (r: [u8; 32])
        ensures
            r@ == constraints_root(self.validator_index, self.slot, self.constraints@),
    {
        let mut buf: Vec<u8> = Vec::new();
        push_u64_le(&mut buf, self.validator_index);
        push_u64_le(&mut buf, self.slot);
        let ghost head = buf@;
        let mut i: usize = 0;
        while i < self.constraints.len()
            invariant
                i <= self.constraints@.len(),
                buf@ == head + tx_hashes(self.constraints@.subrange(0, i as int)),
            decreases self.constraints@.len() - i,
        {
            let h = keccak256(self.constraints[i].tx.as_slice());
            extend_bytes(&mut buf, h.as_slice());
            proof {
                let s = self.constraints@.subrange(0, i + 1);
                assert(s.drop_last() =~= self.constraints@.subrange(0, i as int));
                assert(buf@ =~= head + tx_hashes(s));
            }
            i = i + 1;
        }
        assert(self.constraints@.subrange(0, self.constraints@.len() as int) =~= self.constraints@);
        keccak256(buf.as_slice())
    }
}

/// A constraints message with the sidecar's BLS signature over its root.
pub struct SignedConstraints {
    /// The signed message.
    pub message: ConstraintsMessage,
    /// The compressed BLS signature.
    pub signature: [u8; 96],
}

/// Why a commitment request was refused.
#[derive(Debug, Clone, Copy, PartialEq, Eq)]
pub enum ApiError {
    /// A field is not a string of hexadecimal digit pairs.
    DecodeHex,
    /// The transaction does not decode, or its signer does not recover.
    InvalidTransaction,
    /// The request signature is malformed or does not recover.
    InvalidSignature,
    /// The request was signed by someone other than the transaction's sender.
    SignerMismatch,
    /// The same request was already accepted for the slot.
    DuplicateRequest,
}

/// Whether two addresses are equal.
fn same_address(a: [u8; 20], b: [u8; 20]) -> (r: bool)
    ensures
        r == (a@ == b@),
{
    let mut i: usize = 0;
    while i < 20
        invariant
            i <= 20,
            forall|j: int| 0 <= j < i ==> a@[j] == b@[j],
        decreases 20 - i,
    {
        if a[i] != b[i] {
            return false;
        }
        i = i + 1;
    }
    assert(a@ =~= b@);
    true
}

/// The error that authenticating `request` gives, if any: its transaction's
/// sender and the signer of its digest must both recover and be equal.
pub open spec fn authentication_error(request: InclusionRequest) -> Option<ApiError> {
    match tx_sender_of(request.tx@) {
        None => Some(ApiError::InvalidTransaction),
        Some(sender) => match message_signer_of(
            request.signature@,
            request_digest(request.slot, request.tx@),
        ) {
            None => Some(ApiError::InvalidSignature),
            Some(signer) => if signer != sender {
                Some(ApiError::SignerMismatch)
            } else {
                None
            },
        },
    }
}

/// Reads hexadecimal text, with or without a leading "0x", as bytes.
pub fn decode_hex_text(text: &str) -> (r: Option<Vec<u8>>)
    ensures
        r is Some <==> is_hex(strip_hex_prefix(text.spec_bytes())),
        r matches Some(b) ==> b@ == hex_decoded(strip_hex_prefix(text.spec_bytes())),
{
    let bytes = text.as_bytes();
    let start: usize = if bytes.len() >= 2 && bytes[0] == 48 && bytes[1] == 120 {
        2
    } else {
        0
    };
    let mut digits: Vec<u8> = Vec::new();
    let mut i: usize = start;
    while i < bytes.len()
        invariant
            start <= i <= bytes@.len(),
            digits@ == bytes@.subrange(start as int, i as int),
        decreases bytes@.len() - i,
    {
        digits.push(bytes[i]);
        i = i + 1;
        assert(digits@ =~= bytes@.subrange(start as int, i as int));
    }
    assert(digits@ =~= strip_hex_prefix(bytes@));
    decode_hex(digits.as_slice())
}

/// Builds an inclusion request from its slot and the hexadecimal text of its
/// raw transaction and its 65-byte signature.
pub fn parse_inclusion_request(slot: u64, tx_hex: &str, signature_hex: &str) -> (r: Result<
    InclusionRequest,
    ApiError,
>)
    ensures
        !is_hex(strip_hex_prefix(tx_hex.spec_bytes())) || !is_hex(
            strip_hex_prefix(signature_hex.spec_bytes()),
        ) ==> r == Err::<InclusionRequest, ApiError>(ApiError::DecodeHex),
        is_hex(strip_hex_prefix(tx_hex.spec_bytes())) && is_hex(
            strip_hex_prefix(signature_hex.spec_bytes()),
        ) ==> {
            let sig = hex_decoded(strip_hex_prefix(signature_hex.spec_bytes()));
            &&& sig.len() != 65 ==> r == Err::<InclusionRequest, ApiError>(ApiError::InvalidSignature)
            &&& sig.len() == 65 ==> (r matches Ok(req) && req.slot == slot && req.tx@ == hex_decoded(
                strip_hex_prefix(tx_hex.spec_bytes()),
            ) && req.signature@ == sig)
        },
{
    let tx = match decode_hex_text(tx_hex) {
        Some(b) => b,
        None => return Err(ApiError::DecodeHex),
    };
    let sig = match decode_hex_text(signature_hex) {
        Some(b) => b,
        None => return Err(ApiError::DecodeHex),
    };
    if sig.len() != 65 {
        return Err(ApiError::InvalidSignature);
    }
    let mut signature = [0u8; 65];
    let mut i: usize = 0;
    while i < 65
        invariant
            i <= 65,
            sig@.len() == 65,
            forall|j: int| 0 <= j < i ==> signature@[j] == sig@[j],
        decreases 65 - i,
    {
        signature[i] = sig[i];
        i = i + 1;
    }
    assert(signature@ =~= sig@);
    Ok(InclusionRequest { slot, tx, signature })
}

/// The gateway's state: the accepted requests of recent slots, and the
/// identity under which accepted requests are signed.
pub struct JsonRpcApi {
    cache: DedupCache,
    signer: BlsSecretKey,
    validator_index: u64,
    fork_version: [u8; 4],
}

impl JsonRpcApi {
    /// The accepted requests of recent slots.
    pub closed spec fn requests(&self) -> DedupCache {
        self.cache
    }

    /// The key that signs accepted requests.
    pub closed spec fn signing_key(&self) -> Seq<u8> {
        self.signer@
    }

    /// The index of the validator that commits.
    pub closed spec fn validator(&self) -> u64 {
        self.validator_index
    }

    /// The active fork version of the target chain.
    pub closed spec fn fork(&self) -> Seq<u8> {
        self.fork_version@
    }

    /// The request cache is consistent.
    pub open spec fn wf(&self) -> bool {
        self.requests().wf()
    }

    /// A gateway with no accepted requests that signs with `private_key` for
    /// validator `validator_index` under `fork_version`.
    pub fn new(private_key: BlsSecretKey, validator_index: u64, fork_version: [u8; 4]) -> (r: JsonRpcApi)
        ensures
            r.wf(),
            r.requests().entries().is_empty(),
            r.requests().capacity() == DEFAULT_API_REQUEST_CACHE_SIZE,
            r.signing_key() == private_key@,
            r.validator() == validator_index,
            r.fork() == fork_version@,
    {
        JsonRpcApi {
            cache: DedupCache::new(DEFAULT_API_REQUEST_CACHE_SIZE),
            signer: private_key,
            validator_index,
            fork_version,
        }
    }

    /// The accepted requests of recent slots.
    pub fn cache(&self) -> (r: &DedupCache)
        ensures
            *r == self.requests(),
    {
        &self.cache
    }

    /// Authenticates an inclusion request, accepts it unless its slot already
    /// holds it, and returns the constraints message holding it, signed under
    /// the commit-boost domain. A refused request leaves the cache unchanged.
    pub fn request_inclusion_commitment(&mut self, request: CommitmentRequest) -> (r: Result<
        SignedConstraints,
        ApiError,
    >)
        requires
            old(self).wf(),
        ensures
            final(self).wf(),
            final(self).signing_key() == old(self).signing_key(),
            final(self).validator() == old(self).validator(),
            final(self).fork() == old(self).fork(),
            final(self).requests().capacity() == old(self).requests().capacity(),
            authentication_error(inclusion_of(request)) matches Some(e) ==> r == Err::<
                SignedConstraints,
                ApiError,
            >(e) && final(self).requests() == old(self).requests(),
            authentication_error(inclusion_of(request)) is None ==> {
                let req = inclusion_of(request);
                let key = commitment_key(req.tx@, tx_sender_of(req.tx@)->Some_0);
                let e = old(self).requests().entries();
                let o = old(self).requests().order();
                let c = old(self).requests().capacity();
                &&& final(self).requests().entries() == entries_after(e, o, c, req.slot, key)
                &&& final(self).requests().order() == order_after(e, o, c, req.slot, key)
                &&& is_duplicate(e, req.slot, key) ==> r == Err::<SignedConstraints, ApiError>(
                    ApiError::DuplicateRequest,
                )
                &&& !is_duplicate(e, req.slot, key) ==> (r matches Ok(sc) && sc.message.validator_index
                    == old(self).validator() && sc.message.slot == req.slot
                    && sc.message.constraints@ == seq![req] && sc.signature@ == bls_signature_of(
                    old(self).signing_key(),
                    signing_root_of(
                        constraints_root(old(self).validator(), req.slot, seq![req]),
                        domain_of(COMMIT_BOOST_DOMAIN_MASK@, old(self).fork()),
                    ),
                    bls_dst_spec(),
                ))
            },
    {
        let req = match request {
            CommitmentRequest::Inclusion(r) => r,
        };
        let sender = match recover_tx_sender(req.tx.as_slice()) {
            Some(a) => a,
            None => return Err(ApiError::InvalidTransaction),
        };
        let digest = req.digest();
        let signer = match recover_message_signer(&req.signature, digest.as_slice()) {
            Some(a) => a,
            None => return Err(ApiError::InvalidSignature),
        };
        if !same_address(signer, sender) {
            return Err(ApiError::SignerMismatch);
        }
        if !self.cache.check_and_insert(req.slot, req.tx.as_slice(), signer) {
            return Err(ApiError::DuplicateRequest);
        }
        let message = ConstraintsMessage::build(self.validator_index, req);
        let root = message.digest();
        let domain = compute_domain_from_mask(self.fork_version);
        let signature = self.signer.sign(root, domain);
        Ok(SignedConstraints { message, signature })
    }
}

} // verus!
