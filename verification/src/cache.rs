//! Named TTL caches: string keys mapped to JSON values that expire a fixed
//! time after they were stored. A cache may be bounded; when a bounded cache
//! is full and a new key arrives, expired entries are purged first and then,
//! if it is still full, the oldest entry is dropped.
//!
//! Time is passed in explicitly as milliseconds on a monotonic clock, so that
//! every operation is a function of its arguments.

use vstd::prelude::*;
use vstd::string::*;
use crate::json::Json;
use crate::keyed::{unique_keys, keyed_map, lemma_keyed_map, lemma_keyed_remove, lemma_keyed_push, find_key};
use crate::text::owned;

verus! {

/// Name of the cache holding each user's god-mode flag.
pub const SPECIAL_ACCESS_CACHE: &'static str = "special_access_cache";
/// Lifetime of god-mode entries: five minutes.
pub const SPECIAL_ACCESS_TTL_MS: u64 = 300_000;
/// Name of the cache holding principal lists.
pub const PRINCIPALS_CACHE: &'static str = "principals";
/// Lifetime of principal-list entries: five seconds.
pub const PRINCIPALS_TTL_MS: u64 = 5_000;
/// Name of the cache holding principal identity cards.
pub const PRINCIPAL_INFO_CACHE: &'static str = "principal_info";
/// Lifetime of identity cards: ten minutes.
pub const PRINCIPAL_INFO_TTL_MS: u64 = 600_000;
/// Capacity of the identity-card cache.
pub const PRINCIPAL_INFO_MAX_ENTRIES: usize = 2048;

/// A stored value and the time it was stored.
pub struct CacheEntry {
    pub value: Json,
    pub inserted_at: u64,
}

/// Time elapsed from `at` to `now`, zero if `now` is earlier.
pub open spec fn age(at: u64, now: u64) -> int {
    if now >= at { now - at } else { 0 }
}

/// The entry has not yet expired at `now`.
pub open spec fn is_fresh(e: CacheEntry, ttl: u64, now: u64) -> bool {
    age(e.inserted_at, now) < ttl
}

/// What a lookup of `key` at `now` yields.
pub open spec fn lookup(m: Map<Seq<char>, CacheEntry>, ttl: u64, key: Seq<char>, now: u64) -> Option<Json> {
    if m.contains_key(key) && is_fresh(m[key], ttl, now) { Some(m[key].value) } else { None }
}

/// The entries still fresh at `now`.
pub open spec fn purged(m: Map<Seq<char>, CacheEntry>, ttl: u64, now: u64) -> Map<Seq<char>, CacheEntry> {
    Map::new(|k: Seq<char>| m.contains_key(k) && is_fresh(m[k], ttl, now), |k: Seq<char>| m[k])
}

/// `k` is an entry of `m` stored no later than any other.
pub open spec fn is_oldest(m: Map<Seq<char>, CacheEntry>, k: Seq<char>) -> bool {
    m.contains_key(k) && forall|k2: Seq<char>| #[trigger] m.contains_key(k2) ==> m[k].inserted_at <= m[k2].inserted_at
}

/// `after` is `m` with expired entries purged and then, while at least `max`
/// entries remain, one oldest entry dropped.
pub open spec fn evicted(m: Map<Seq<char>, CacheEntry>, ttl: u64, max: usize, now: u64, after: Map<Seq<char>, CacheEntry>) -> bool {
    let p = purged(m, ttl, now);
    if p.len() >= max && p.len() > 0 {
        exists|k: Seq<char>| is_oldest(p, k) && after == p.remove(k)
    } else {
        after == p
    }
}

/// `after` is the state after storing `value` under `key` at `now`.
pub open spec fn stored(m: Map<Seq<char>, CacheEntry>, ttl: u64, max: Option<usize>, key: Seq<char>,
    value: Json, now: u64, after: Map<Seq<char>, CacheEntry>) -> bool {
    let e = CacheEntry { value, inserted_at: now };
    match max {
        Some(n) => if m.len() >= n && !m.contains_key(key) {
            exists|mid: Map<Seq<char>, CacheEntry>| evicted(m, ttl, n, now, mid) && after == mid.insert(key, e)
        } else {
            after == m.insert(key, e)
        },
        None => after == m.insert(key, e),
    }
}

/// A cache: its entries share one lifetime and, optionally, a capacity.
pub struct TtlCache {
    entries: Vec<(String, CacheEntry)>,
    ttl_ms: u64,
    max_entries: Option<usize>,
}

impl TtlCache {
    #[verifier::type_invariant]
    spec fn inv(self) -> bool {
        unique_keys(self.entries@)
    }

    /// The stored entries by key.
    pub closed spec fn view(&self) -> Map<Seq<char>, CacheEntry> {
        keyed_map(self.entries@)
    }

    /// The lifetime of entries, in milliseconds.
    pub closed spec fn ttl(&self) -> u64 {
        self.ttl_ms
    }

    /// The capacity, if bounded.
    pub closed spec fn max(&self) -> Option<usize> {
        self.max_entries
    }

    /// An empty cache.
    pub fn new(ttl_ms: u64, max_entries: Option<usize>) -> (r: TtlCache)
        ensures
            r.view() == Map::<Seq<char>, CacheEntry>::empty(),
            r.ttl() == ttl_ms,
            r.max() == max_entries,
    {
        TtlCache { entries: Vec::new(), ttl_ms, max_entries }
    }

    /// Number of stored entries, expired ones included.
    pub fn len(&self) -> (r: usize)
        ensures
            r == self.view().len(),
            self.view().dom().finite(),
    {
        proof {
            use_type_invariant(self);
            lemma_keyed_map(self.entries@);
        }
        self.entries.len()
    }

    /// The value stored under `key`, unless it has expired at `now`.
    pub fn get(&self, key: &str, now: u64) -> (r: Option<&Json>)
        ensures
            match r {
                Some(v) => lookup(self.view(), self.ttl(), key@, now) == Some(*v),
                None => lookup(self.view(), self.ttl(), key@, now) is None,
            },
    {
        proof {
            use_type_invariant(self);
            lemma_keyed_map(self.entries@);
        }
        match find_key(&self.entries, key) {
            Some(i) => {
                let e = &self.entries[i].1;
                let fresh = if now >= e.inserted_at { now - e.inserted_at < self.ttl_ms } else { 0 < self.ttl_ms };
                if fresh { Some(&e.value) } else { None }
            },
            None => None,
        }
    }

    /// Stores `value` under `key` at time `now`, evicting first when the
    /// cache is bounded, full, and `key` is new.
    pub fn set(&mut self, key: String, value: Json, now: u64)
        ensures
            stored(old(self).view(), old(self).ttl(), old(self).max(), key@, value, now, final(self).view()),
            final(self).ttl() == old(self).ttl(),
            final(self).max() == old(self).max(),
    {
        proof {
            use_type_invariant(&*self);
            lemma_keyed_map(self.entries@);
        }
        let ghost m0 = self.view();
        let mut es: Vec<(String, CacheEntry)> = Vec::new();
        std::mem::swap(&mut es, &mut self.entries);
        let present = find_key(&es, key.as_str());
        let mut evict_to: Option<usize> = None;
        if let Some(max) = self.max_entries {
            if es.len() >= max && present.is_none() {
                evict_to = Some(max);
            }
        }
        let ghost mut mid = m0;
        match evict_to {
            Some(max) => {
                evict_entries(&mut es, self.ttl_ms, max, now);
                proof { mid = keyed_map(es@); }
            },
            None => {},
        }
        // `key` is absent from the evicted entries when eviction ran.
        proof {
            lemma_keyed_map(es@);
        }
        let idx = find_key(&es, key.as_str());
        match idx {
            Some(i) => {
                proof { lemma_keyed_remove(es@, i as int); }
                let _old = es.remove(i);
            },
            None => {},
        }
        let ghost before_push = es@;
        proof {
            lemma_keyed_map(es@);
            assert(!keyed_map(es@).contains_key(key@));
            lemma_keyed_push(es@, key, CacheEntry { value, inserted_at: now });
        }
        es.push((key, CacheEntry { value, inserted_at: now }));
        proof {
            let e = CacheEntry { value, inserted_at: now };
            assert(keyed_map(es@) =~= mid.insert(key@, e));
            if evict_to.is_some() {
                assert(evicted(m0, self.ttl_ms, evict_to.unwrap(), now, mid));
            } else {
                assert(mid == m0);
            }
        }
        self.entries = es;
    }

    /// Drops the entry for `key`.
    pub fn invalidate(&mut self, key: &str)
        ensures
            final(self).view() == old(self).view().remove(key@),
            final(self).ttl() == old(self).ttl(),
            final(self).max() == old(self).max(),
    {
        proof {
            use_type_invariant(&*self);
            lemma_keyed_map(self.entries@);
        }
        let mut es: Vec<(String, CacheEntry)> = Vec::new();
        std::mem::swap(&mut es, &mut self.entries);
        match find_key(&es, key) {
            Some(i) => {
                proof { lemma_keyed_remove(es@, i as int); }
                let _old = es.remove(i);
            },
            None => {
                proof { assert(keyed_map(es@) =~= keyed_map(es@).remove(key@)); }
            },
        }
        self.entries = es;
    }
}

/// `x` is a pair of `s0` at position `lo` or later that is fresh at `now`.
spec fn from_fresh(x: (String, CacheEntry), s0: Seq<(String, CacheEntry)>, lo: int, ttl: u64, now: u64) -> bool {
    exists|i: int| lo <= i < s0.len() && x == #[trigger] s0[i] && is_fresh(s0[i].1, ttl, now)
}

/// Keeps the entries fresh at `now`.
fn purge_expired(es: &mut Vec<(String, CacheEntry)>, ttl: u64, now: u64)
    requires
        unique_keys(old(es)@),
    ensures
        unique_keys(final(es)@),
        keyed_map(final(es)@) == purged(keyed_map(old(es)@), ttl, now),
{
    let ghost s0 = es@;
    let mut kept: Vec<(String, CacheEntry)> = Vec::new();
    while es.len() > 0
        invariant
            unique_keys(s0),
            es@ == s0.take(es@.len() as int),
            es@.len() <= s0.len(),
            unique_keys(kept@),
            forall|a: int| 0 <= a < kept@.len() ==> #[trigger] from_fresh(kept@[a], s0, es@.len() as int, ttl, now),
            forall|i: int| es@.len() <= i < s0.len() && is_fresh(#[trigger] s0[i].1, ttl, now)
                ==> exists|a: int| 0 <= a < kept@.len() && kept@[a] == s0[i],
        decreases es@.len(),
    {
        let ghost n = es@.len() as int;
        let (k, e) = es.pop().unwrap();
        assert(s0[n - 1] == (k, e));
        assert(es@ =~= s0.take(n - 1));
        let fresh = if now >= e.inserted_at { now - e.inserted_at < ttl } else { 0 < ttl };
        if fresh {
            let ghost old_kept = kept@;
            kept.push((k, e));
            proof {
                assert forall|a: int, b: int| 0 <= a < kept@.len() && 0 <= b < kept@.len() && a != b
                    implies kept@[a].0@ != kept@[b].0@ by {
                    if a < old_kept.len() && b < old_kept.len() {
                        assert(kept@[a] == old_kept[a] && kept@[b] == old_kept[b]);
                    } else if a < old_kept.len() {
                        assert(kept@[a] == old_kept[a]);
                        assert(from_fresh(old_kept[a], s0, n, ttl, now));
                        let i = choose|i: int| n <= i < s0.len() && old_kept[a] == #[trigger] s0[i] && is_fresh(s0[i].1, ttl, now);
                        assert(s0[i].0@ != s0[n - 1].0@);
                    } else {
                        assert(kept@[b] == old_kept[b]);
                        assert(from_fresh(old_kept[b], s0, n, ttl, now));
                        let i = choose|i: int| n <= i < s0.len() && old_kept[b] == #[trigger] s0[i] && is_fresh(s0[i].1, ttl, now);
                        assert(s0[i].0@ != s0[n - 1].0@);
                    }
                }
                assert forall|a: int| 0 <= a < kept@.len() implies #[trigger] from_fresh(kept@[a], s0, n - 1, ttl, now) by {
                    if a < old_kept.len() {
                        assert(kept@[a] == old_kept[a]);
                        assert(from_fresh(old_kept[a], s0, n, ttl, now));
                        let i = choose|i: int| n <= i < s0.len() && old_kept[a] == #[trigger] s0[i] && is_fresh(s0[i].1, ttl, now);
                        assert(kept@[a] == s0[i]);
                    } else {
                        assert(kept@[a] == s0[n - 1]);
                    }
                }
                assert forall|i: int| n - 1 <= i < s0.len() && is_fresh(#[trigger] s0[i].1, ttl, now)
                    implies exists|a: int| 0 <= a < kept@.len() && kept@[a] == s0[i] by {
                    if i == n - 1 {
                        assert(kept@[kept@.len() - 1] == s0[i]);
                    } else {
                        let a = choose|a: int| 0 <= a < old_kept.len() && old_kept[a] == s0[i];
                        assert(kept@[a] == old_kept[a]);
                    }
                }
            }
        } else {
            proof {
                assert forall|i: int| n - 1 <= i < s0.len() && is_fresh(#[trigger] s0[i].1, ttl, now)
                    implies exists|a: int| 0 <= a < kept@.len() && kept@[a] == s0[i] by {
                    assert(i != n - 1);
                }
                assert forall|a: int| 0 <= a < kept@.len() implies #[trigger] from_fresh(kept@[a], s0, n - 1, ttl, now) by {
                    assert(from_fresh(kept@[a], s0, n, ttl, now));
                    let i = choose|i: int| n <= i < s0.len() && kept@[a] == #[trigger] s0[i] && is_fresh(s0[i].1, ttl, now);
                    assert(n - 1 <= i < s0.len() && kept@[a] == s0[i] && is_fresh(s0[i].1, ttl, now));
                }
            }
        }
    }
    proof {
        let m = keyed_map(s0);
        lemma_keyed_map(s0);
        lemma_keyed_map(kept@);
        let p = purged(m, ttl, now);
        assert forall|k: Seq<char>| #[trigger] keyed_map(kept@).contains_key(k) == p.contains_key(k) by {
            if keyed_map(kept@).contains_key(k) {
                let a = choose|a: int| 0 <= a < kept@.len() && kept@[a].0@ == k;
                assert(from_fresh(kept@[a], s0, 0, ttl, now));
                let i = choose|i: int| 0 <= i < s0.len() && kept@[a] == #[trigger] s0[i] && is_fresh(s0[i].1, ttl, now);
                assert(m[s0[i].0@] == s0[i].1);
            }
            if p.contains_key(k) {
                let i = choose|i: int| 0 <= i < s0.len() && s0[i].0@ == k;
                assert(m[s0[i].0@] == s0[i].1);
                assert(is_fresh(s0[i].1, ttl, now));
                let a = choose|a: int| 0 <= a < kept@.len() && kept@[a] == s0[i];
                assert(kept@[a].0@ == k);
            }
        }
        assert forall|k: Seq<char>| #[trigger] keyed_map(kept@).contains_key(k)
            implies keyed_map(kept@)[k] == p[k] by {
            let a = choose|a: int| 0 <= a < kept@.len() && kept@[a].0@ == k;
            assert(from_fresh(kept@[a], s0, 0, ttl, now));
                let i = choose|i: int| 0 <= i < s0.len() && kept@[a] == #[trigger] s0[i] && is_fresh(s0[i].1, ttl, now);
            assert(keyed_map(kept@)[kept@[a].0@] == kept@[a].1);
            assert(m[s0[i].0@] == s0[i].1);
        }
        assert(keyed_map(kept@) =~= p);
    }
    *es = kept;
}

/// Position of an entry stored no later than any other.
fn oldest_index(es: &Vec<(String, CacheEntry)>) -> (r: usize)
    requires
        es@.len() > 0,
    ensures
        r < es@.len(),
        forall|j: int| 0 <= j < es@.len() ==> es@[r as int].1.inserted_at <= #[trigger] es@[j].1.inserted_at,
{
    let mut best: usize = 0;
    let mut i: usize = 1;
    while i < es.len()
        invariant
            es@.len() > 0,
            best < es@.len(),
            1 <= i <= es@.len(),
            forall|j: int| 0 <= j < i ==> es@[best as int].1.inserted_at <= #[trigger] es@[j].1.inserted_at,
        decreases es@.len() - i,
    {
        if es[i].1.inserted_at < es[best].1.inserted_at {
            best = i;
        }
        i = i + 1;
    }
    best
}

/// Purges expired entries and then, while at least `max` remain, drops the oldest.
fn evict_entries(es: &mut Vec<(String, CacheEntry)>, ttl: u64, max: usize, now: u64)
    requires
        unique_keys(old(es)@),
    ensures
        unique_keys(final(es)@),
        evicted(keyed_map(old(es)@), ttl, max, now, keyed_map(final(es)@)),
        keyed_map(final(es)@).dom().subset_of(keyed_map(old(es)@).dom()),
{
    let ghost m0 = keyed_map(es@);
    purge_expired(es, ttl, now);
    let ghost p = keyed_map(es@);
    proof { lemma_keyed_map(es@); }
    if es.len() >= max && es.len() > 0 {
        let i = oldest_index(es);
        let ghost k = es@[i as int].0@;
        proof {
            lemma_keyed_remove(es@, i as int);
            assert forall|k2: Seq<char>| #[trigger] p.contains_key(k2) implies p[k].inserted_at <= p[k2].inserted_at by {
                let j = choose|j: int| 0 <= j < es@.len() && es@[j].0@ == k2;
                assert(p[es@[j].0@] == es@[j].1);
                assert(p[es@[i as int].0@] == es@[i as int].1);
            }
            assert(is_oldest(p, k));
        }
        let _dropped = es.remove(i);
        proof {
            assert(keyed_map(es@) == p.remove(k));
        }
    }
}

/// Named caches, each with its own lifetime and capacity.
pub struct CacheStore {
    caches: Vec<(String, TtlCache)>,
}

/// What looking up `key` in the cache named `name` yields at `now`.
pub open spec fn store_lookup(m: Map<Seq<char>, TtlCache>, name: Seq<char>, key: Seq<char>, now: u64) -> Option<Json> {
    if m.contains_key(name) { lookup(m[name].view(), m[name].ttl(), key, now) } else { None }
}

/// `after` differs from `before` only in the cache named `name`.
pub open spec fn others_unchanged(before: Map<Seq<char>, TtlCache>, after: Map<Seq<char>, TtlCache>, name: Seq<char>) -> bool {
    &&& after.dom() == before.dom()
    &&& forall|n: Seq<char>| #[trigger] after.contains_key(n) && n != name ==> after[n] == before[n]
    &&& after.contains_key(name) ==> after[name].ttl() == before[name].ttl() && after[name].max() == before[name].max()
}

/// `after` is the store after registering a cache named `name` with
/// lifetime `ttl` and capacity `max`: unchanged where one exists, else with
/// that cache added empty.
pub open spec fn registered(before: Map<Seq<char>, TtlCache>, after: Map<Seq<char>, TtlCache>, name: Seq<char>,
    ttl: u64, max: Option<usize>) -> bool {
    if before.contains_key(name) {
        after == before
    } else {
        &&& after.dom() == before.dom().insert(name)
        &&& forall|n: Seq<char>| #[trigger] before.contains_key(n) ==> after[n] == before[n]
        &&& after[name].view() == Map::<Seq<char>, CacheEntry>::empty()
        &&& after[name].ttl() == ttl
        &&& after[name].max() == max
    }
}

/// `after` is the store after storing `value` under `key` in the cache named
/// `name` at `now`: that cache as `stored` says, the others unchanged; the
/// whole store unchanged where no such cache is registered.
pub open spec fn store_set(before: Map<Seq<char>, TtlCache>, after: Map<Seq<char>, TtlCache>, name: Seq<char>,
    key: Seq<char>, value: Json, now: u64) -> bool {
    &&& others_unchanged(before, after, name)
    &&& before.contains_key(name) ==> stored(before[name].view(), before[name].ttl(), before[name].max(), key, value,
            now, after[name].view())
    &&& !before.contains_key(name) ==> after == before
}

impl CacheStore {
    #[verifier::type_invariant]
    spec fn inv(self) -> bool {
        unique_keys(self.caches@)
    }

    /// The caches by name.
    pub closed spec fn view(&self) -> Map<Seq<char>, TtlCache> {
        keyed_map(self.caches@)
    }

    /// A store with no caches.
    pub fn new() -> (r: CacheStore)
        ensures
            r.view() == Map::<Seq<char>, TtlCache>::empty(),
    {
        CacheStore { caches: Vec::new() }
    }

    /// Adds an empty cache named `name` unless one exists.
    fn register(&mut self, name: &str, ttl_ms: u64, max_entries: Option<usize>)
        ensures
            registered(old(self).view(), final(self).view(), name@, ttl_ms, max_entries),
    {
        proof {
            use_type_invariant(&*self);
            lemma_keyed_map(self.caches@);
        }
        let mut cs: Vec<(String, TtlCache)> = Vec::new();
        std::mem::swap(&mut cs, &mut self.caches);
        if find_key(&cs, name).is_none() {
            let key = owned(name);
            let c = TtlCache::new(ttl_ms, max_entries);
            proof {
                lemma_keyed_map(cs@);
                lemma_keyed_push(cs@, key, c);
            }
            cs.push((key, c));
            proof {
                lemma_keyed_map(cs@);
            }
        }
        self.caches = cs;
    }

    /// Adds an unbounded cache named `name` with lifetime `ttl_ms`, unless one exists.
    pub fn register_cache(&mut self, name: &str, ttl_ms: u64)
        ensures
            registered(old(self).view(), final(self).view(), name@, ttl_ms, None::<usize>),
    {
        self.register(name, ttl_ms, None);
    }

    /// Adds a cache named `name` holding at most `max_entries` entries, unless one exists.
    pub fn register_bounded_cache(&mut self, name: &str, ttl_ms: u64, max_entries: usize)
        ensures
            registered(old(self).view(), final(self).view(), name@, ttl_ms, Some(max_entries)),
    {
        self.register(name, ttl_ms, Some(max_entries));
    }

    /// The value under `key` in cache `cache_name`, unless the cache is
    /// unknown, the key is missing, or the entry has expired at `now`.
    pub fn get(&self, cache_name: &str, key: &str, now: u64) -> (r: Option<&Json>)
        ensures
            match r {
                Some(v) => store_lookup(self.view(), cache_name@, key@, now) == Some(*v),
                None => store_lookup(self.view(), cache_name@, key@, now) is None,
            },
    {
        proof {
            use_type_invariant(self);
            lemma_keyed_map(self.caches@);
        }
        match find_key(&self.caches, cache_name) {
            Some(i) => self.caches[i].1.get(key, now),
            None => None,
        }
    }

    /// Stores `value` under `key` in cache `cache_name` at `now`; does nothing
    /// when no such cache is registered.
    pub fn set(&mut self, cache_name: &str, key: String, value: Json, now: u64)
        ensures
            store_set(old(self).view(), final(self).view(), cache_name@, key@, value, now),
    {
        proof {
            use_type_invariant(&*self);
            lemma_keyed_map(self.caches@);
        }
        let mut cs: Vec<(String, TtlCache)> = Vec::new();
        std::mem::swap(&mut cs, &mut self.caches);
        let ghost m0 = keyed_map(cs@);
        match find_key(&cs, cache_name) {
            Some(i) => {
                proof { lemma_keyed_remove(cs@, i as int); }
                let (n, mut c) = cs.remove(i);
                c.set(key, value, now);
                proof {
                    lemma_keyed_map(cs@);
                    lemma_keyed_push(cs@, n, c);
                }
                cs.push((n, c));
                proof {
                    assert(keyed_map(cs@) =~= m0.insert(cache_name@, c));
                }
            },
            None => {},
        }
        self.caches = cs;
    }

    /// Drops `key` from cache `cache_name`, if both exist.
    pub fn invalidate(&mut self, cache_name: &str, key: &str)
        ensures
            others_unchanged(old(self).view(), final(self).view(), cache_name@),
            old(self).view().contains_key(cache_name@) ==> final(self).view()[cache_name@].view()
                == old(self).view()[cache_name@].view().remove(key@),
            !old(self).view().contains_key(cache_name@) ==> final(self).view() == old(self).view(),
    {
        proof {
            use_type_invariant(&*self);
            lemma_keyed_map(self.caches@);
        }
        let mut cs: Vec<(String, TtlCache)> = Vec::new();
        std::mem::swap(&mut cs, &mut self.caches);
        let ghost m0 = keyed_map(cs@);
        match find_key(&cs, cache_name) {
            Some(i) => {
                proof { lemma_keyed_remove(cs@, i as int); }
                let (n, mut c) = cs.remove(i);
                c.invalidate(key);
                proof {
                    lemma_keyed_map(cs@);
                    lemma_keyed_push(cs@, n, c);
                }
                cs.push((n, c));
                proof {
                    assert(keyed_map(cs@) =~= m0.insert(cache_name@, c));
                }
            },
            None => {},
        }
        self.caches = cs;
    }

    /// The store with the standard caches registered: god-mode flags (five
    /// minutes), principal lists (five seconds) and identity cards (ten
    /// minutes, at most 2048 entries).
    pub fn with_default_caches() -> (r: CacheStore)
        ensures
            r.view().dom() == set![SPECIAL_ACCESS_CACHE@, PRINCIPALS_CACHE@, PRINCIPAL_INFO_CACHE@],
            r.view()[SPECIAL_ACCESS_CACHE@].ttl() == SPECIAL_ACCESS_TTL_MS,
            r.view()[SPECIAL_ACCESS_CACHE@].max() == None::<usize>,
            r.view()[SPECIAL_ACCESS_CACHE@].view() == Map::<Seq<char>, CacheEntry>::empty(),
            r.view()[PRINCIPALS_CACHE@].ttl() == PRINCIPALS_TTL_MS,
            r.view()[PRINCIPALS_CACHE@].max() == None::<usize>,
            r.view()[PRINCIPALS_CACHE@].view() == Map::<Seq<char>, CacheEntry>::empty(),
            r.view()[PRINCIPAL_INFO_CACHE@].ttl() == PRINCIPAL_INFO_TTL_MS,
            r.view()[PRINCIPAL_INFO_CACHE@].max() == Some(PRINCIPAL_INFO_MAX_ENTRIES),
            r.view()[PRINCIPAL_INFO_CACHE@].view() == Map::<Seq<char>, CacheEntry>::empty(),
    {
        proof {
            reveal_strlit("special_access_cache");
            reveal_strlit("principals");
            reveal_strlit("principal_info");
        }
        let mut s = CacheStore::new();
        s.register_cache(SPECIAL_ACCESS_CACHE, SPECIAL_ACCESS_TTL_MS);
        assert(SPECIAL_ACCESS_CACHE@ != PRINCIPALS_CACHE@) by {
            assert(SPECIAL_ACCESS_CACHE@.len() != PRINCIPALS_CACHE@.len());
        }
        let ghost s1 = s.view();
        assert(s1.contains_key(SPECIAL_ACCESS_CACHE@));
        s.register_cache(PRINCIPALS_CACHE, PRINCIPALS_TTL_MS);
        let ghost s2 = s.view();
        assert(s2[SPECIAL_ACCESS_CACHE@] == s1[SPECIAL_ACCESS_CACHE@]);
        assert(s2.contains_key(PRINCIPALS_CACHE@));
        assert(PRINCIPAL_INFO_CACHE@ != PRINCIPALS_CACHE@) by {
            assert(PRINCIPAL_INFO_CACHE@.len() != PRINCIPALS_CACHE@.len());
        }
        assert(PRINCIPAL_INFO_CACHE@ != SPECIAL_ACCESS_CACHE@) by {
            assert(PRINCIPAL_INFO_CACHE@.len() != SPECIAL_ACCESS_CACHE@.len());
        }
        assert(s2.contains_key(SPECIAL_ACCESS_CACHE@));
        s.register_bounded_cache(PRINCIPAL_INFO_CACHE, PRINCIPAL_INFO_TTL_MS, PRINCIPAL_INFO_MAX_ENTRIES);
        assert(s.view()[SPECIAL_ACCESS_CACHE@] == s2[SPECIAL_ACCESS_CACHE@]);
        assert(s.view()[PRINCIPALS_CACHE@] == s2[PRINCIPALS_CACHE@]);
        assert(s.view().dom() =~= set![SPECIAL_ACCESS_CACHE@, PRINCIPALS_CACHE@, PRINCIPAL_INFO_CACHE@]);
        s
    }
}

/// A value stored at `now` is returned by every lookup before it expires.
pub proof fn law_read_after_write(m: Map<Seq<char>, CacheEntry>, ttl: u64, max: Option<usize>, key: Seq<char>,
    value: Json, now: u64, after: Map<Seq<char>, CacheEntry>, later: u64)
    requires
        stored(m, ttl, max, key, value, now, after),
        now <= later,
        later - now < ttl,
    ensures
        lookup(after, ttl, key, later) == Some(value),
{
}

/// No lookup returns an entry that has expired.
pub proof fn law_expired_not_served(m: Map<Seq<char>, CacheEntry>, ttl: u64, key: Seq<char>, now: u64)
    requires
        m.contains_key(key),
        age(m[key].inserted_at, now) >= ttl,
    ensures
        lookup(m, ttl, key, now) is None,
{
}

/// After invalidating a key, lookups of it miss.
pub proof fn law_invalidate_misses(m: Map<Seq<char>, CacheEntry>, ttl: u64, key: Seq<char>, now: u64)
    ensures
        lookup(m.remove(key), ttl, key, now) is None,
{
}

/// In an unbounded cache, storing one key leaves every other key's lookup unchanged.
pub proof fn law_unbounded_set_keeps_others(m: Map<Seq<char>, CacheEntry>, ttl: u64, key: Seq<char>,
    value: Json, now: u64, after: Map<Seq<char>, CacheEntry>, other: Seq<char>, later: u64)
    requires
        stored(m, ttl, None, key, value, now, after),
        other != key,
    ensures
        lookup(after, ttl, other, later) == lookup(m, ttl, other, later),
{
}

/// A bounded cache with capacity at least one never grows beyond it.
pub proof fn law_capacity_respected(m: Map<Seq<char>, CacheEntry>, ttl: u64, n: usize, key: Seq<char>,
    value: Json, now: u64, after: Map<Seq<char>, CacheEntry>)
    requires
        m.dom().finite(),
        n >= 1,
        m.len() <= n,
        stored(m, ttl, Some(n), key, value, now, after),
    ensures
        after.len() <= n,
{
    let e = CacheEntry { value, inserted_at: now };
    if m.len() >= n && !m.contains_key(key) {
        let mid = choose|mid: Map<Seq<char>, CacheEntry>| evicted(m, ttl, n, now, mid) && after == mid.insert(key, e);
        let p = purged(m, ttl, now);
        assert(p.dom().subset_of(m.dom()));
        vstd::set_lib::lemma_len_subset(p.dom(), m.dom());
        assert(p.dom().finite());
        if p.len() >= n && p.len() > 0 {
            let k = choose|k: Seq<char>| is_oldest(p, k) && mid == p.remove(k);
            assert(mid.len() == p.len() - 1);
        } else {
            assert(mid == p);
        }
        assert(!mid.contains_key(key));
        assert(after.len() == mid.len() + 1);
    } else if m.contains_key(key) {
        assert(after.dom() =~= m.dom());
    }
}


/// A value stored in a registered cache is read back until its lifetime has
/// passed, and not after: registering `name` (lifetime `ttl` where it is
/// new), then storing `value` under `key` at `at`, a lookup at `now` gives
/// `value` exactly while less than the cache's lifetime has elapsed since
/// `at`.
pub proof fn law_registered_cache_read_after_write(s0: Map<Seq<char>, TtlCache>, s1: Map<Seq<char>, TtlCache>,
    s2: Map<Seq<char>, TtlCache>, name: Seq<char>, ttl: u64, max: Option<usize>, key: Seq<char>, value: Json,
    at: u64, now: u64)
    requires
        registered(s0, s1, name, ttl, max),
        store_set(s1, s2, name, key, value, at),
    ensures
        s1.contains_key(name),
        !s0.contains_key(name) ==> s1[name].ttl() == ttl,
        store_lookup(s2, name, key, now) == if age(at, now) < s1[name].ttl() { Some(value) } else { None::<Json> },
{
    assert(s1.contains_key(name));
    let e = CacheEntry { value, inserted_at: at };
    assert(s2[name].view().contains_key(key) && s2[name].view()[key] == e);
}

/// Storing in a cache that was never registered does nothing, and lookups
/// in it miss.
pub proof fn law_unregistered_cache_ignores_set(s: Map<Seq<char>, TtlCache>, s2: Map<Seq<char>, TtlCache>,
    name: Seq<char>, key: Seq<char>, value: Json, at: u64, now: u64)
    requires
        !s.contains_key(name),
        store_set(s, s2, name, key, value, at),
    ensures
        s2 == s,
        store_lookup(s2, name, key, now) is None,
{
}

} // verus!
