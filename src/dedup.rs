//! Per-slot deduplication of accepted commitment requests.
use crate::lru_cache::{
    lemma_put_consistent, lru_capacity, lru_consistent, lru_entries, lru_new, lru_order, lru_peek,
    lru_put, put_entries, put_order, SlotLru,
};
use vstd::prelude::*;

verus! {

/// How many slots the cache of accepted requests keeps.
pub const DEFAULT_API_REQUEST_CACHE_SIZE: usize = 1000;

/// The identity of an accepted request within its slot: the signer's address
/// followed by the raw transaction.
pub open spec fn commitment_key(tx: Seq<u8>, signer: Seq<u8>) -> Seq<u8> {
    signer + tx
}

/// Whether `key` was already accepted for `slot`.
pub open spec fn is_duplicate(entries: Map<u64, Seq<Seq<u8>>>, slot: u64, key: Seq<u8>) -> bool {
    entries.contains_key(slot) && entries[slot].contains(key)
}

/// The bucket of `slot` with `key` added.
pub open spec fn grown_bucket(entries: Map<u64, Seq<Seq<u8>>>, slot: u64, key: Seq<u8>) -> Seq<Seq<u8>> {
    if entries.contains_key(slot) {
        entries[slot].push(key)
    } else {
        seq![key]
    }
}

/// The buckets after submitting `key` for `slot`.
pub open spec fn entries_after(
    entries: Map<u64, Seq<Seq<u8>>>,
    order: Seq<u64>,
    capacity: nat,
    slot: u64,
    key: Seq<u8>,
) -> Map<u64, Seq<Seq<u8>>> {
    if is_duplicate(entries, slot, key) {
        entries
    } else {
        put_entries(entries, order, capacity, slot, grown_bucket(entries, slot, key))
    }
}

/// The recency order after submitting `key` for `slot`.
pub open spec fn order_after(
    entries: Map<u64, Seq<Seq<u8>>>,
    order: Seq<u64>,
    capacity: nat,
    slot: u64,
    key: Seq<u8>,
) -> Seq<u64> {
    if is_duplicate(entries, slot, key) {
        order
    } else {
        put_order(entries, order, capacity, slot)
    }
}

/// A bounded least-recently-used map from slot to the requests accepted for it.
pub struct DedupCache {
    cache: SlotLru,
}

impl DedupCache {
    /// The accepted keys of each slot that the cache still holds.
    pub closed spec fn entries(&self) -> Map<u64, Seq<Seq<u8>>> {
        lru_entries(self.cache)
    }

    /// The held slots, from least to most recently used.
    pub closed spec fn order(&self) -> Seq<u64> {
        lru_order(self.cache)
    }

    /// The number of slots the cache holds at most.
    pub closed spec fn capacity(&self) -> nat {
        lru_capacity(self.cache)
    }

    /// The cache's buckets and recency order agree.
    pub open spec fn wf(&self) -> bool {
        lru_consistent(self.entries(), self.order(), self.capacity())
    }

    /// An empty cache holding at most `capacity` slots.
    pub fn new(capacity: usize) -> (r: DedupCache)
        requires
            capacity > 0,
        ensures
            r.wf(),
            r.entries().is_empty(),
            r.order().len() == 0,
            r.capacity() == capacity,
    {
        let r = DedupCache { cache: lru_new(capacity) };
        assert(r.order() =~= Seq::<u64>::empty());
        r
    }

    /// The keys accepted so far for `slot`, if the cache holds it.
    pub fn bucket(&self, slot: u64) -> (r: Option<Vec<Vec<u8>>>)
        ensures
            r is Some <==> self.entries().contains_key(slot),
            r matches Some(b) ==> b.deep_view() == self.entries()[slot],
    {
        lru_peek(&self.cache, slot)
    }

    /// Accepts `tx` from `signer` for `slot` unless the slot already holds
    /// it; the check and the insertion are one step.
    pub fn check_and_insert(&mut self, slot: u64, tx: &[u8], signer: [u8; 20]) -> (r: bool)
        requires
            old(self).wf(),
        ensures
            final(self).wf(),
            final(self).capacity() == old(self).capacity(),
            r == !is_duplicate(old(self).entries(), slot, commitment_key(tx@, signer@)),
            final(self).entries() == entries_after(
                old(self).entries(),
                old(self).order(),
                old(self).capacity(),
                slot,
                commitment_key(tx@, signer@),
            ),
            final(self).order() == order_after(
                old(self).entries(),
                old(self).order(),
                old(self).capacity(),
                slot,
                commitment_key(tx@, signer@),
            ),
    {
        let mut key: Vec<u8> = Vec::new();
        let mut i: usize = 0;
        while i < 20
            invariant
                i <= 20,
                key@ == signer@.subrange(0, i as int),
            decreases 20 - i,
        {
            key.push(signer[i]);
            i = i + 1;
            assert(key@ =~= signer@.subrange(0, i as int));
        }
        let mut j: usize = 0;
        while j < tx.len()
            invariant
                j <= tx@.len(),
                key@ == signer@ + tx@.subrange(0, j as int),
            decreases tx@.len() - j,
        {
            key.push(tx[j]);
            j = j + 1;
            assert(key@ =~= signer@ + tx@.subrange(0, j as int));
        }
        assert(signer@.subrange(0, 20) =~= signer@);
        assert(key@ =~= commitment_key(tx@, signer@));
        let ghost k = key@;
        let ghost e = self.entries();
        let ghost o = self.order();
        let ghost c = self.capacity();
        let bucket = match lru_peek(&self.cache, slot) {
            Some(b) => {
                if contains_bytes(&b, &key) {
                    return false;
                }
                b
            },
            None => Vec::new(),
        };
        let mut bucket = bucket;
        let ghost before = bucket.deep_view();
        assert(key.deep_view() =~= k);
        bucket.push(key);
        proof {
            assert(bucket.deep_view() =~= before.push(k));
            assert(bucket.deep_view() =~= grown_bucket(e, slot, k));
            lemma_put_consistent(e, o, c, slot, grown_bucket(e, slot, k));
        }
        lru_put(&mut self.cache, slot, bucket);
        true
    }
}

/// Submitting the same transaction from the same signer twice for one slot:
/// after the first submission, whatever its outcome, the second is a
/// duplicate.
pub proof fn lemma_resubmission_is_duplicate(
    entries: Map<u64, Seq<Seq<u8>>>,
    order: Seq<u64>,
    capacity: nat,
    slot: u64,
    tx: Seq<u8>,
    signer: Seq<u8>,
)
    requires
        lru_consistent(entries, order, capacity),
    ensures
        is_duplicate(
            entries_after(entries, order, capacity, slot, commitment_key(tx, signer)),
            slot,
            commitment_key(tx, signer),
        ),
{
    let k = commitment_key(tx, signer);
    if !is_duplicate(entries, slot, k) {
        let after = entries_after(entries, order, capacity, slot, k);
        assert(after[slot] == grown_bucket(entries, slot, k));
        assert(grown_bucket(entries, slot, k).last() == k);
        assert(after[slot][after[slot].len() - 1] == k);
    }
}

/// Submitting a transaction for one slot does not make it a duplicate for
/// another slot: the same transaction is accepted under two different slots.
pub proof fn lemma_other_slot_unaffected(
    entries: Map<u64, Seq<Seq<u8>>>,
    order: Seq<u64>,
    capacity: nat,
    slot: u64,
    other: u64,
    tx: Seq<u8>,
    signer: Seq<u8>,
)
    requires
        lru_consistent(entries, order, capacity),
        slot != other,
        !is_duplicate(entries, other, commitment_key(tx, signer)),
    ensures
        !is_duplicate(
            entries_after(entries, order, capacity, slot, commitment_key(tx, signer)),
            other,
            commitment_key(tx, signer),
        ),
{
}

/// When every place is taken, accepting a request for a slot that the cache
/// does not hold evicts the bucket of the least recently used slot, and the
/// new slot's bucket is held.
pub proof fn lemma_full_cache_evicts_oldest(
    entries: Map<u64, Seq<Seq<u8>>>,
    order: Seq<u64>,
    capacity: nat,
    slot: u64,
    tx: Seq<u8>,
    signer: Seq<u8>,
)
    requires
        lru_consistent(entries, order, capacity),
        order.len() == capacity,
        !entries.contains_key(slot),
    ensures
        !entries_after(entries, order, capacity, slot, commitment_key(tx, signer)).contains_key(
            order[0],
        ),
        entries_after(entries, order, capacity, slot, commitment_key(tx, signer)).contains_key(slot),
{
    assert(order.contains(order[0]));
}

/// Whether `a` and `b` hold the same bytes.
pub fn bytes_equal(a: &Vec<u8>, b: &Vec<u8>) -> (r: bool)
    ensures
        r == (a@ == b@),
{
    if a.len() != b.len() {
        return false;
    }
    let mut i: usize = 0;
    while i < a.len()
        invariant
            i <= a@.len(),
            a@.len() == b@.len(),
            forall|j: int| 0 <= j < i ==> a@[j] == b@[j],
        decreases a@.len() - i,
    {
        if a[i] != b[i] {
            return false;
        }
        i = i + 1;
    }
    assert(a@ =~= b@);
    true
}

/// Whether `items` holds `x`.
pub fn contains_bytes(items: &Vec<Vec<u8>>, x: &Vec<u8>) -> (r: bool)
    ensures
        r == items.deep_view().contains(x@),
{
    assert(x.deep_view() =~= x@);
    let mut i: usize = 0;
    while i < items.len()
        invariant
            i <= items@.len(),
            forall|j: int| 0 <= j < i ==> items.deep_view()[j] != x@,
        decreases items@.len() - i,
    {
        assert(items@[i as int].deep_view() =~= items@[i as int]@);
        assert(x.deep_view() =~= x@);
        if bytes_equal(&items[i], x) {
            assert(items.deep_view()[i as int] == x@);
            return true;
        }
        i = i + 1;
    }
    false
}

} // verus!
