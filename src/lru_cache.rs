//! The least-recently-used cache of the `lru` crate, keyed by slot, with
//! buckets of byte strings.
use vstd::prelude::*;

verus! {

#[verifier::external_type_specification]
#[verifier::external_body]
#[verifier::reject_recursive_types(K)]
#[verifier::reject_recursive_types(V)]
#[verifier::reject_recursive_types(S)]
pub struct ExLruCache<K, V, S>(lru::LruCache<K, V, S>);

/// The cache of slot buckets used here.
pub type SlotLru = lru::LruCache<u64, Vec<Vec<u8>>, std::collections::hash_map::RandomState>;

/// What the cache holds: each slot's bucket.
pub uninterp spec fn lru_entries(c: lru::LruCache<u64, Vec<Vec<u8>>, std::collections::hash_map::RandomState>) -> Map<u64, Seq<Seq<u8>>>;

/// The cache's slots, from least to most recently used.
pub uninterp spec fn lru_order(c: lru::LruCache<u64, Vec<Vec<u8>>, std::collections::hash_map::RandomState>) -> Seq<u64>;

/// The capacity the cache was made with.
pub uninterp spec fn lru_capacity(c: lru::LruCache<u64, Vec<Vec<u8>>, std::collections::hash_map::RandomState>) -> nat;

/// Keeps every key but `k`.
pub open spec fn other_than(k: u64) -> spec_fn(u64) -> bool {
    |x: u64| x != k
}

/// `order` with `k` moved to the most recently used end.
pub open spec fn touched(order: Seq<u64>, k: u64) -> Seq<u64> {
    order.filter(other_than(k)).push(k)
}

/// The entries after putting `v` under `k`: a full cache that lacks `k` first
/// drops its least recently used key.
pub open spec fn put_entries(
    entries: Map<u64, Seq<Seq<u8>>>,
    order: Seq<u64>,
    capacity: nat,
    k: u64,
    v: Seq<Seq<u8>>,
) -> Map<u64, Seq<Seq<u8>>> {
    if entries.contains_key(k) || order.len() < capacity {
        entries.insert(k, v)
    } else {
        entries.remove(order[0]).insert(k, v)
    }
}

/// The order after putting a value under `k`.
pub open spec fn put_order(
    entries: Map<u64, Seq<Seq<u8>>>,
    order: Seq<u64>,
    capacity: nat,
    k: u64,
) -> Seq<u64> {
    if entries.contains_key(k) {
        touched(order, k)
    } else if order.len() < capacity {
        order.push(k)
    } else {
        order.subrange(1, order.len() as int).push(k)
    }
}

/// The cache's contents and order agree: each key once in the order, and
/// exactly the keys that hold a bucket.
pub open spec fn lru_consistent(entries: Map<u64, Seq<Seq<u8>>>, order: Seq<u64>, capacity: nat) -> bool {
    &&& capacity > 0
    &&& order.no_duplicates()
    &&& forall|x: u64| #[trigger] order.contains(x) <==> entries.contains_key(x)
}

/// Relies on lru's `LruCache::with_hasher`; a zero capacity cannot be given.
#[verifier::external_body]
pub fn lru_new(capacity: usize) -> (r: SlotLru)
    requires
        capacity > 0,
    ensures
        lru_entries(r).is_empty(),
        lru_order(r).len() == 0,
        lru_capacity(r) == capacity,
{
    lru::LruCache::with_hasher(
        std::num::NonZeroUsize::new(capacity).unwrap(),
        std::collections::hash_map::RandomState::new(),
    )
}

/// Relies on lru's `LruCache::peek`: a lookup that leaves the order as it is.
#[verifier::external_body]
pub fn lru_peek(c: &SlotLru, k: u64) -> (r: Option<Vec<Vec<u8>>>)
    ensures
        r is Some <==> lru_entries(*c).contains_key(k),
        r matches Some(v) ==> v.deep_view() == lru_entries(*c)[k],
{
    c.peek(&k).cloned()
}

/// Relies on lru's `LruCache::put`: it replaces the value of a present key, or
/// adds the key, first evicting the least recently used one when the cache is
/// full; either way the key becomes the most recently used.
#[verifier::external_body]
pub fn lru_put(c: &mut SlotLru, k: u64, v: Vec<Vec<u8>>)
    ensures
        lru_capacity(*final(c)) == lru_capacity(*old(c)),
        lru_entries(*final(c)) == put_entries(
            lru_entries(*old(c)),
            lru_order(*old(c)),
            lru_capacity(*old(c)),
            k,
            v.deep_view(),
        ),
        lru_order(*final(c)) == put_order(
            lru_entries(*old(c)),
            lru_order(*old(c)),
            lru_capacity(*old(c)),
            k,
        ),
{
    c.put(k, v);
}

/// What a sequence holds after a push.
pub proof fn lemma_push_contains(s: Seq<u64>, a: u64, x: u64)
    ensures
        s.push(a).contains(x) <==> (s.contains(x) || x == a),
{
    let t = s.push(a);
    if s.contains(x) {
        let i = choose|i: int| 0 <= i < s.len() && s[i] == x;
        assert(t[i] == x);
    }
    if x == a {
        assert(t[s.len() as int] == x);
    }
    if t.contains(x) && x != a {
        let i = choose|i: int| 0 <= i < t.len() && t[i] == x;
        assert(i < s.len());
        assert(s[i] == x);
    }
}

/// Moving a key to the most recently used end keeps each key once and the
/// same set of keys.
pub proof fn lemma_filter_other_than(order: Seq<u64>, k: u64)
    requires
        order.no_duplicates(),
    ensures
        order.filter(other_than(k)).no_duplicates(),
        forall|x: u64| #[trigger] order.filter(other_than(k)).contains(x) <==> (order.contains(x) && x != k),
    decreases order.len(),
{
    let f = order.filter(other_than(k));
    if order.len() == 0 {
        order.lemma_filter_len(other_than(k));
        assert(f.len() == 0);
    } else {
        let p = order.drop_last();
        let last = order.last();
        assert(order =~= p.push(last));
        assert(p.no_duplicates());
        lemma_filter_other_than(p, k);
        p.lemma_filter_push(last, other_than(k));
        assert(!p.contains(last));
        assert forall|x: u64| #[trigger] f.contains(x) <==> (order.contains(x) && x != k) by {
            lemma_push_contains(p, last, x);
            lemma_push_contains(p.filter(other_than(k)), last, x);
        }
        if last != k {
            assert(f == p.filter(other_than(k)).push(last));
            assert forall|i: int, j: int| 0 <= i < f.len() && 0 <= j < f.len() && i != j implies f[i] != f[j] by {
                if i == f.len() - 1 {
                    assert(p.filter(other_than(k)).contains(f[j]));
                } else if j == f.len() - 1 {
                    assert(p.filter(other_than(k)).contains(f[i]));
                }
            }
        }
    }
}

/// Putting a key keeps contents and order in agreement.
pub proof fn lemma_put_consistent(
    entries: Map<u64, Seq<Seq<u8>>>,
    order: Seq<u64>,
    capacity: nat,
    k: u64,
    v: Seq<Seq<u8>>,
)
    requires
        lru_consistent(entries, order, capacity),
    ensures
        lru_consistent(
            put_entries(entries, order, capacity, k, v),
            put_order(entries, order, capacity, k),
            capacity,
        ),
{
    let e2 = put_entries(entries, order, capacity, k, v);
    let o2 = put_order(entries, order, capacity, k);
    if entries.contains_key(k) {
        lemma_filter_other_than(order, k);
        let f = order.filter(other_than(k));
        assert forall|i: int, j: int| 0 <= i < o2.len() && 0 <= j < o2.len() && i != j implies o2[i] != o2[j] by {
            if i == o2.len() - 1 {
                assert(f.contains(o2[j]));
            } else if j == o2.len() - 1 {
                assert(f.contains(o2[i]));
            }
        }
        assert forall|x: u64| #[trigger] o2.contains(x) <==> e2.contains_key(x) by {
            lemma_push_contains(f, k, x);
        }
    } else if order.len() < capacity {
        assert(!order.contains(k));
        assert forall|x: u64| #[trigger] o2.contains(x) <==> e2.contains_key(x) by {
            lemma_push_contains(order, k, x);
        }
    } else {
        let rest = order.subrange(1, order.len() as int);
        assert(order.contains(order[0]));
        assert forall|x: u64| #[trigger] o2.contains(x) <==> e2.contains_key(x) by {
            lemma_push_contains(rest, k, x);
            if x != k {
                if rest.contains(x) {
                    let i = choose|i: int| 0 <= i < rest.len() && rest[i] == x;
                    assert(order[i + 1] == x);
                    assert(order.contains(x));
                }
                if order.contains(x) && x != order[0] {
                    let i = choose|i: int| 0 <= i < order.len() && order[i] == x;
                    assert(i != 0);
                    assert(rest[i - 1] == x);
                }
            }
        }
        assert forall|i: int, j: int| 0 <= i < o2.len() && 0 <= j < o2.len() && i != j implies o2[i] != o2[j] by {
            if i == o2.len() - 1 {
                assert(order.contains(o2[j]));
            } else if j == o2.len() - 1 {
                assert(order.contains(o2[i]));
            } else {
                assert(o2[i] == order[i + 1]);
                assert(o2[j] == order[j + 1]);
            }
        }
    }
}

} // verus!
