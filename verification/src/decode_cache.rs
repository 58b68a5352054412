//! The in-memory cache of decoded animations: at most
//! `ANIMATED_DECODE_CACHE_CAP` entries, the least recently used one
//! evicted first. Keys are catalog positions; values are handles by
//! which the caller finds the decoded frames again.

use vstd::prelude::*;

use lru::LruCache;

verus! {

/// Decoded animations are about 5 MB each, so 64 of them cap the cache
/// near 320 MB.
pub const ANIMATED_DECODE_CACHE_CAP: usize = 64;

#[verifier::external_type_specification]
#[verifier::external_body]
#[verifier::reject_recursive_types(K)]
#[verifier::reject_recursive_types(V)]
#[verifier::reject_recursive_types(S)]
pub struct ExLruCache<K, V, S>(LruCache<K, V, S>);

#[verifier::external_type_specification]
#[verifier::external_body]
pub struct ExLruHasher(lru::DefaultHasher);

/// The entries of an LRU cache, most recently used first.
pub uninterp spec fn lru_entries(c: LruCache<u64, u64>) -> Seq<(u64, u64)>;

/// The capacity an LRU cache was made with.
pub uninterp spec fn lru_capacity(c: LruCache<u64, u64>) -> nat;

/// Index of the first entry with key `k` at or after `i`, or -1.
pub open spec fn key_index_from(s: Seq<(u64, u64)>, k: u64, i: int) -> int
    decreases s.len() - i,
{
    if i < 0 || i >= s.len() {
        -1
    } else if s[i].0 == k {
        i
    } else {
        key_index_from(s, k, i + 1)
    }
}

pub open spec fn key_index(s: Seq<(u64, u64)>, k: u64) -> int {
    key_index_from(s, k, 0)
}

/// `LruCache::get`: a hit moves the entry to the front.
pub open spec fn after_get(s: Seq<(u64, u64)>, k: u64) -> Seq<(u64, u64)> {
    let i = key_index(s, k);
    if i >= 0 {
        seq![s[i]] + s.remove(i)
    } else {
        s
    }
}

/// `LruCache::push`: the entry goes to the front; an entry with the same
/// key is replaced, or else the least recently used entry is evicted
/// when the cache is full. Returns the entries after, and the entry
/// replaced or evicted.
pub open spec fn after_push(s: Seq<(u64, u64)>, cap: nat, k: u64, v: u64) -> (Seq<(u64, u64)>, Option<(u64, u64)>) {
    let i = key_index(s, k);
    if i >= 0 {
        (seq![(k, v)] + s.remove(i), Some((k, s[i].1)))
    } else if s.len() == cap {
        (seq![(k, v)] + s.drop_last(), Some(s.last()))
    } else {
        (seq![(k, v)] + s, None)
    }
}

/// `LruCache::new`: an empty cache holding at most `cap` entries.
#[verifier::external_body]
fn lru_new(cap: usize) -> (res: LruCache<u64, u64>)
    requires
        cap > 0,
    ensures
        lru_entries(res) == Seq::<(u64, u64)>::empty(),
        lru_capacity(res) == cap,
{
    LruCache::new(std::num::NonZeroUsize::new(cap).unwrap())
}

/// `LruCache::get`: the value of `k`, moving its entry to the front. It
/// does not allocate and cannot panic.
#[verifier::external_body]
fn lru_get(c: &mut LruCache<u64, u64>, k: u64) -> (res: Option<u64>)
    ensures
        res == (if key_index(lru_entries(*old(c)), k) >= 0 {
            Some(lru_entries(*old(c))[key_index(lru_entries(*old(c)), k)].1)
        } else {
            None::<u64>
        }),
        lru_entries(*final(c)) == after_get(lru_entries(*old(c)), k),
        lru_capacity(*final(c)) == lru_capacity(*old(c)),
    no_unwind
{
    c.get(&k).copied()
}

/// `LruCache::push`: inserts at the front, returning the entry replaced
/// or evicted. Its only failure is running out of memory, which aborts
/// rather than unwinds.
#[verifier::external_body]
fn lru_push(c: &mut LruCache<u64, u64>, k: u64, v: u64) -> (res: Option<(u64, u64)>)
    requires
        lru_entries(*old(c)).len() <= lru_capacity(*old(c)),
    ensures
        (lru_entries(*final(c)), res) == after_push(
            lru_entries(*old(c)),
            lru_capacity(*old(c)),
            k,
            v,
        ),
        lru_capacity(*final(c)) == lru_capacity(*old(c)),
    no_unwind
{
    c.push(k, v)
}

pub open spec fn distinct_keys(s: Seq<(u64, u64)>) -> bool {
    forall|i: int, j: int| 0 <= i < j < s.len() ==> s[i].0 != s[j].0
}

/// Decoded animations by catalog position.
pub struct DecodeCache {
    cache: LruCache<u64, u64>,
}

impl DecodeCache {
    #[verifier::type_invariant]
    spec fn well_formed(self) -> bool {
        &&& lru_capacity(self.cache) == ANIMATED_DECODE_CACHE_CAP
        &&& lru_entries(self.cache).len() <= ANIMATED_DECODE_CACHE_CAP
        &&& distinct_keys(lru_entries(self.cache))
    }

    /// The entries, most recently used first.
    pub closed spec fn entries(self) -> Seq<(u64, u64)> {
        lru_entries(self.cache)
    }

    pub fn new() -> (res: Self)
        ensures
            res.entries() == Seq::<(u64, u64)>::empty(),
    {
        DecodeCache { cache: lru_new(ANIMATED_DECODE_CACHE_CAP) }
    }

    /// The handle cached for `key`, which becomes the most recently used
    /// entry.
    pub fn lookup(&mut self, key: u64) -> (res: Option<u64>)
        ensures
            res == (if key_index(old(self).entries(), key) >= 0 {
                Some(old(self).entries()[key_index(old(self).entries(), key)].1)
            } else {
                None::<u64>
            }),
            final(self).entries() == after_get(old(self).entries(), key),
    {
        proof {
            use_type_invariant(&*self);
            lemma_key_index(lru_entries(self.cache), key, 0);
        }
        let ghost before = lru_entries(self.cache);
        let r = lru_get(&mut self.cache, key);
        proof {
            let i = key_index(before, key);
            if i >= 0 {
                lemma_front_keeps_distinct(before, i);
            }
        }
        r
    }

    /// Caches `handle` for `key` as the most recently used entry. Returns
    /// the handle that stops being cached: the one `key` had before, or
    /// that of the evicted least recently used entry when the cache was
    /// full.
    pub fn insert(&mut self, key: u64, handle: u64) -> (dropped: Option<u64>)
        ensures
            final(self).entries() == after_push(
                old(self).entries(),
                ANIMATED_DECODE_CACHE_CAP as nat,
                key,
                handle,
            ).0,
            dropped == (match after_push(
                old(self).entries(),
                ANIMATED_DECODE_CACHE_CAP as nat,
                key,
                handle,
            ).1 {
                Some(e) => Some(e.1),
                None => None::<u64>,
            }),
    {
        proof {
            use_type_invariant(&*self);
            lemma_key_index(lru_entries(self.cache), key, 0);
        }
        let ghost before = lru_entries(self.cache);
        let r = lru_push(&mut self.cache, key, handle);
        proof {
            lemma_push_keeps_distinct(before, ANIMATED_DECODE_CACHE_CAP as nat, key, handle);
        }
        match r {
            Some(e) => Some(e.1),
            None => None,
        }
    }
}

proof fn lemma_key_index(s: Seq<(u64, u64)>, k: u64, i: int)
    requires
        0 <= i,
    ensures
        key_index_from(s, k, i) == -1 || (i <= key_index_from(s, k, i) < s.len() && s[key_index_from(
            s,
            k,
            i,
        )].0 == k),
        key_index_from(s, k, i) == -1 ==> forall|j: int| i <= j < s.len() ==> s[j].0 != k,
    decreases s.len() - i,
{
    if i < s.len() && s[i].0 != k {
        lemma_key_index(s, k, i + 1);
    }
}

proof fn lemma_front_keeps_distinct(s: Seq<(u64, u64)>, i: int)
    requires
        distinct_keys(s),
        0 <= i < s.len(),
    ensures
        distinct_keys(seq![s[i]] + s.remove(i)),
        (seq![s[i]] + s.remove(i)).len() == s.len(),
{
    let t = seq![s[i]] + s.remove(i);
    assert forall|a: int, b: int| 0 <= a < b < t.len() implies t[a].0 != t[b].0 by {
        let ob = if b - 1 < i {
            b - 1
        } else {
            b
        };
        assert(t[b] == s[ob]);
        if a == 0 {
            assert(t[a] == s[i]);
        } else {
            let oa = if a - 1 < i {
                a - 1
            } else {
                a
            };
            assert(t[a] == s[oa]);
        }
    }
}

proof fn lemma_push_keeps_distinct(s: Seq<(u64, u64)>, cap: nat, k: u64, v: u64)
    requires
        distinct_keys(s),
        s.len() <= cap,
        cap > 0,
    ensures
        distinct_keys(after_push(s, cap, k, v).0),
        after_push(s, cap, k, v).0.len() <= cap,
{
    lemma_key_index(s, k, 0);
    let i = key_index(s, k);
    let t = after_push(s, cap, k, v).0;
    if i >= 0 {
        lemma_front_keeps_distinct(s, i);
        let u = seq![s[i]] + s.remove(i);
        assert forall|a: int, b: int| 0 <= a < b < t.len() implies t[a].0 != t[b].0 by {
            assert(t[b] == u[b]);
            if a > 0 {
                assert(t[a] == u[a]);
            }
        }
    } else {
        let rest = if s.len() == cap {
            s.drop_last()
        } else {
            s
        };
        assert forall|a: int, b: int| 0 <= a < b < t.len() implies t[a].0 != t[b].0 by {
            assert(t[b] == rest[b - 1]);
            assert(rest[b - 1] == s[b - 1]);
            if a > 0 {
                assert(t[a] == rest[a - 1]);
                assert(rest[a - 1] == s[a - 1]);
            }
        }
    }
}

/// After `insert(key, handle)`, a lookup of `key` finds `handle`.
pub proof fn law_insert_then_lookup(entries: Seq<(u64, u64)>, key: u64, handle: u64)
    ensures
        ({
            let after = after_push(entries, ANIMATED_DECODE_CACHE_CAP as nat, key, handle).0;
            key_index(after, key) == 0 && after[0].1 == handle
        }),
{
}

/// A full cache that misses a key evicts its least recently used entry,
/// and keeps every other entry.
pub proof fn law_full_cache_evicts_least_recent(entries: Seq<(u64, u64)>, key: u64, handle: u64)
    requires
        entries.len() == ANIMATED_DECODE_CACHE_CAP,
        forall|j: int| 0 <= j < entries.len() ==> entries[j].0 != key,
    ensures
        after_push(entries, ANIMATED_DECODE_CACHE_CAP as nat, key, handle).1 == Some(entries.last()),
        after_push(entries, ANIMATED_DECODE_CACHE_CAP as nat, key, handle).0 == seq![(key, handle)]
            + entries.drop_last(),
{
    lemma_key_index(entries, key, 0);
}

} // verus!
