//! A keyed cache whose entries expire a fixed time after insertion.
//!
//! Instants are milliseconds since the Unix epoch. Reads of an expired entry
//! miss and evict it; `cleanup_at` evicts every expired entry at once.
use vstd::prelude::*;
use crate::clock::{duration_millis, unix_now_millis};

verus! {

/// A cached value and the instant at which it expires.
pub struct CacheEntry<V> {
    pub key: String,
    pub value: V,
    pub expires_at: i64,
}

/// The value and expiry held under key `k` in `s`, if any.
pub open spec fn lookup<V>(s: Seq<CacheEntry<V>>, k: Seq<char>) -> Option<(V, int)> {
    if exists|i: int| 0 <= i < s.len() && (#[trigger] s[i]).key@ == k {
        let i = choose|i: int| 0 <= i < s.len() && (#[trigger] s[i]).key@ == k;
        Some((s[i].value, s[i].expires_at as int))
    } else {
        None
    }
}

/// No two entries of `s` share a key.
pub open spec fn unique_keys<V>(s: Seq<CacheEntry<V>>) -> bool {
    forall|i: int, j: int|
        0 <= i < s.len() && 0 <= j < s.len() && i != j ==> (#[trigger] s[i]).key@ != (#[trigger] s[j]).key@
}

/// The expiry of an entry inserted at `now` with time-to-live `ttl`,
/// capped at the largest instant.
pub open spec fn expiry(now: int, ttl: int) -> int {
    if now + ttl <= i64::MAX {
        now + ttl
    } else {
        i64::MAX as int
    }
}

/// What a sweep at `now` leaves of an entry: it stays while it has not expired.
pub open spec fn kept_at<V>(e: Option<(V, int)>, now: int) -> Option<(V, int)> {
    match e {
        Some((v, x)) => if x > now {
            Some((v, x))
        } else {
            None
        },
        None => None,
    }
}

proof fn lemma_lookup_at<V>(s: Seq<CacheEntry<V>>, i: int)
    requires
        unique_keys(s),
        0 <= i < s.len(),
    ensures
        lookup(s, s[i].key@) == Some((s[i].value, s[i].expires_at as int)),
{
    let k = s[i].key@;
    assert(0 <= i < s.len() && s[i].key@ == k);
    let j = choose|j: int| 0 <= j < s.len() && (#[trigger] s[j]).key@ == k;
    assert(j == i);
}

proof fn lemma_lookup_push<V>(s: Seq<CacheEntry<V>>, e: CacheEntry<V>)
    requires
        unique_keys(s),
        lookup(s, e.key@) is None,
    ensures
        unique_keys(s.push(e)),
        lookup(s.push(e), e.key@) == Some((e.value, e.expires_at as int)),
        forall|k: Seq<char>| k != e.key@ ==> lookup(s.push(e), k) == lookup(s, k),
{
    let t = s.push(e);
    assert forall|i: int, j: int|
        0 <= i < t.len() && 0 <= j < t.len() && i != j implies (#[trigger] t[i]).key@ != (
        #[trigger] t[j]).key@ by {
        if i < s.len() && j < s.len() {
            assert(t[i] == s[i] && t[j] == s[j]);
        } else if i < s.len() {
            assert(t[i] == s[i]);
        } else {
            assert(t[j] == s[j]);
        }
    }
    lemma_lookup_at(t, s.len() as int);
    assert forall|k: Seq<char>| k != e.key@ implies lookup(t, k) == lookup(s, k) by {
        if exists|i: int| 0 <= i < s.len() && (#[trigger] s[i]).key@ == k {
            let i = choose|i: int| 0 <= i < s.len() && (#[trigger] s[i]).key@ == k;
            assert(t[i] == s[i]);
            lemma_lookup_at(s, i);
            lemma_lookup_at(t, i);
        } else {
            assert forall|i: int| 0 <= i < t.len() implies (#[trigger] t[i]).key@ != k by {
                if i < s.len() {
                    assert(t[i] == s[i]);
                }
            }
        }
    }
}

proof fn lemma_lookup_update<V>(s: Seq<CacheEntry<V>>, i: int, e: CacheEntry<V>)
    requires
        unique_keys(s),
        0 <= i < s.len(),
        s[i].key@ == e.key@,
    ensures
        unique_keys(s.update(i, e)),
        lookup(s.update(i, e), e.key@) == Some((e.value, e.expires_at as int)),
        forall|k: Seq<char>| k != e.key@ ==> lookup(s.update(i, e), k) == lookup(s, k),
{
    let t = s.update(i, e);
    assert forall|a: int, b: int|
        0 <= a < t.len() && 0 <= b < t.len() && a != b implies (#[trigger] t[a]).key@ != (
        #[trigger] t[b]).key@ by {
        assert(t[a].key@ == s[a].key@ && t[b].key@ == s[b].key@);
    }
    lemma_lookup_at(t, i);
    assert forall|k: Seq<char>| k != e.key@ implies lookup(t, k) == lookup(s, k) by {
        if exists|j: int| 0 <= j < s.len() && (#[trigger] s[j]).key@ == k {
            let j = choose|j: int| 0 <= j < s.len() && (#[trigger] s[j]).key@ == k;
            assert(j != i);
            assert(t[j] == s[j]);
            lemma_lookup_at(s, j);
            lemma_lookup_at(t, j);
        } else {
            assert forall|j: int| 0 <= j < t.len() implies (#[trigger] t[j]).key@ != k by {
                if j != i {
                    assert(t[j] == s[j]);
                }
            }
        }
    }
}

proof fn lemma_lookup_remove<V>(s: Seq<CacheEntry<V>>, i: int)
    requires
        unique_keys(s),
        0 <= i < s.len(),
    ensures
        unique_keys(s.remove(i)),
        lookup(s.remove(i), s[i].key@) is None,
        forall|k: Seq<char>| k != s[i].key@ ==> lookup(s.remove(i), k) == lookup(s, k),
{
    let t = s.remove(i);
    assert forall|a: int| 0 <= a < t.len() implies (#[trigger] t[a]) == (if a < i {
        s[a]
    } else {
        s[a + 1]
    }) by {}
    assert forall|a: int, b: int|
        0 <= a < t.len() && 0 <= b < t.len() && a != b implies (#[trigger] t[a]).key@ != (
        #[trigger] t[b]).key@ by {
        let a2 = if a < i { a } else { a + 1 };
        let b2 = if b < i { b } else { b + 1 };
        assert(t[a] == s[a2] && t[b] == s[b2]);
    }
    assert forall|a: int| 0 <= a < t.len() implies (#[trigger] t[a]).key@ != s[i].key@ by {
        let a2 = if a < i { a } else { a + 1 };
        assert(t[a] == s[a2]);
    }
    assert forall|k: Seq<char>| k != s[i].key@ implies lookup(t, k) == lookup(s, k) by {
        if exists|j: int| 0 <= j < s.len() && (#[trigger] s[j]).key@ == k {
            let j = choose|j: int| 0 <= j < s.len() && (#[trigger] s[j]).key@ == k;
            let j2 = if j < i { j } else { j - 1 };
            assert(t[j2] == s[j]);
            lemma_lookup_at(s, j);
            lemma_lookup_at(t, j2);
        } else {
            assert forall|a: int| 0 <= a < t.len() implies (#[trigger] t[a]).key@ != k by {
                let a2 = if a < i { a } else { a + 1 };
                assert(t[a] == s[a2]);
            }
        }
    }
}

/// How many of the first `k` entries of `s` have not expired at `now`.
pub open spec fn live_count<V>(s: Seq<CacheEntry<V>>, now: int, k: nat) -> nat
    decreases k,
{
    if k == 0 {
        0
    } else {
        live_count(s, now, (k - 1) as nat) + if s[k - 1].expires_at > now {
            1nat
        } else {
            0nat
        }
    }
}

/// `new` is `old` swept at `now`: every key keeps its entry exactly while it
/// has not expired, no expired entry remains, and one entry remains per live
/// entry of `old`.
pub open spec fn swept<V>(old: Seq<CacheEntry<V>>, new: Seq<CacheEntry<V>>, now: int) -> bool {
    &&& forall|k: Seq<char>| #[trigger] lookup(new, k) == kept_at(lookup(old, k), now)
    &&& forall|i: int| 0 <= i < new.len() ==> (#[trigger] new[i]).expires_at > now
    &&& new.len() == live_count(old, now, old.len())
}

/// A cache of values under string keys, each expiring `ttl` after its insertion.
pub struct TtlCache<V> {
    entries: Vec<CacheEntry<V>>,
    ttl_ms: i64,
}

impl<V> TtlCache<V> {
    /// The entries held, in no particular order.
    pub closed spec fn entries(&self) -> Seq<CacheEntry<V>> {
        self.entries@
    }

    /// The time-to-live in milliseconds.
    pub closed spec fn ttl(&self) -> int {
        self.ttl_ms as int
    }

    /// The value and expiry held under `k`, if any.
    pub open spec fn get_spec(&self, k: Seq<char>) -> Option<(V, int)> {
        lookup(self.entries(), k)
    }

    pub open spec fn wf(&self) -> bool {
        &&& unique_keys(self.entries())
        &&& self.ttl() >= 0
    }

    /// An empty cache whose entries live for `ttl_ms` milliseconds.
    pub fn with_ttl_millis(ttl_ms: u64) -> (c: Self)
        ensures
            c.wf(),
            c.entries().len() == 0,
            c.ttl() == if ttl_ms <= i64::MAX { ttl_ms as int } else { i64::MAX as int },
    {
        let ttl: i64 = if ttl_ms <= i64::MAX as u64 {
            ttl_ms as i64
        } else {
            i64::MAX
        };
        TtlCache { entries: Vec::new(), ttl_ms: ttl }
    }

    /// An empty cache whose entries live for `ttl`.
    pub fn new(ttl: std::time::Duration) -> (c: Self)
        ensures
            c.wf(),
            c.entries().len() == 0,
    {
        let ms = duration_millis(ttl);
        let capped: u64 = if ms <= u64::MAX as u128 {
            ms as u64
        } else {
            u64::MAX
        };
        Self::with_ttl_millis(capped)
    }

    fn index_of(&self, key: &String) -> (r: Option<usize>)
        ensures
            r is Some ==> r->0 < self.entries().len() && self.entries()[r->0 as int].key@ == key@,
            r is None ==> forall|i: int|
                0 <= i < self.entries().len() ==> (#[trigger] self.entries()[i]).key@ != key@,
    {
        let mut i: usize = 0;
        while i < self.entries.len()
            invariant
                i <= self.entries@.len(),
                forall|j: int| 0 <= j < i ==> (#[trigger] self.entries@[j]).key@ != key@,
            decreases self.entries.len() - i,
        {
            if self.entries[i].key == *key {
                return Some(i);
            }
            i = i + 1;
        }
        None
    }

    /// Stores `value` under `key` at instant `now`, replacing any entry there;
    /// it expires `ttl` after `now`.
    pub fn insert_at(&mut self, key: String, value: V, now: i64)
        requires
            old(self).wf(),
        ensures
            final(self).wf(),
            final(self).ttl() == old(self).ttl(),
            final(self).get_spec(key@) == Some((value, expiry(now as int, old(self).ttl()))),
            forall|k: Seq<char>| k != key@ ==> final(self).get_spec(k) == old(self).get_spec(k),
            final(self).entries().len() == old(self).entries().len() + (if old(self).get_spec(
                key@,
            ) is Some {
                0int
            } else {
                1int
            }),
    {
        let expires_at: i64 = if now <= i64::MAX - self.ttl_ms {
            now + self.ttl_ms
        } else {
            i64::MAX
        };
        let e = CacheEntry { key, value, expires_at };
        let ghost s = self.entries@;
        match self.index_of(&e.key) {
            Some(i) => {
                proof {
                    lemma_lookup_update(s, i as int, e);
                    lemma_lookup_at(s, i as int);
                }
                self.entries.set(i, e);
            },
            None => {
                proof {
                    lemma_lookup_push(s, e);
                }
                self.entries.push(e);
            },
        }
    }

    /// Number of entries held, expired ones included.
    pub fn len(&self) -> (n: usize)
        ensures
            n == self.entries().len(),
    {
        self.entries.len()
    }

    /// Whether no entry is held.
    pub fn is_empty(&self) -> (r: bool)
        ensures
            r == (self.entries().len() == 0),
    {
        self.entries.len() == 0
    }
}

impl<V: Clone> TtlCache<V> {
    /// The value under `key` if it has not expired at `now`. An expired entry
    /// is evicted and reported as a miss.
    pub fn get_at(&mut self, key: &String, now: i64) -> (r: Option<V>)
        requires
            old(self).wf(),
        ensures
            final(self).wf(),
            final(self).ttl() == old(self).ttl(),
            match old(self).get_spec(key@) {
                None => r is None && final(self).entries() == old(self).entries(),
                Some((v, x)) => if x > now {
                    r is Some && cloned(v, r->0) && final(self).entries() == old(self).entries()
                } else {
                    &&& r is None
                    &&& final(self).get_spec(key@) is None
                    &&& forall|k: Seq<char>|
                        k != key@ ==> final(self).get_spec(k) == old(self).get_spec(k)
                    &&& final(self).entries().len() == old(self).entries().len() - 1
                },
            },
    {
        let ghost s = self.entries@;
        match self.index_of(key) {
            None => {
                proof {
                    assert(!(exists|i: int| 0 <= i < s.len() && (#[trigger] s[i]).key@ == key@));
                }
                None
            },
            Some(i) => {
                proof {
                    lemma_lookup_at(s, i as int);
                }
                if self.entries[i].expires_at > now {
                    Some(self.entries[i].value.clone())
                } else {
                    proof {
                        lemma_lookup_remove(s, i as int);
                    }
                    let _evicted = self.entries.remove(i);
                    None
                }
            },
        }
    }

    /// The value under `key` if it has not expired now; see `get_at`.
    pub fn get(&mut self, key: &String) -> (r: Option<V>)
        requires
            old(self).wf(),
        ensures
            final(self).wf(),
            final(self).ttl() == old(self).ttl(),
            match old(self).get_spec(key@) {
                None => r is None && final(self).entries() == old(self).entries(),
                Some((v, x)) => {
                    &&& r is Some ==> cloned(v, r->0) && final(self).entries() == old(self).entries()
                    &&& r is None ==> {
                        &&& final(self).get_spec(key@) is None
                        &&& forall|k: Seq<char>|
                            k != key@ ==> final(self).get_spec(k) == old(self).get_spec(k)
                        &&& final(self).entries().len() == old(self).entries().len() - 1
                    }
                },
            },
    {
        let now = unix_now_millis();
        self.get_at(key, now)
    }

    /// Stores `value` under `key` now; see `insert_at`.
    pub fn insert(&mut self, key: String, value: V)
        requires
            old(self).wf(),
        ensures
            final(self).wf(),
            final(self).ttl() == old(self).ttl(),
            exists|now: int|
                final(self).get_spec(key@) == Some((value, expiry(now, old(self).ttl()))),
            forall|k: Seq<char>| k != key@ ==> final(self).get_spec(k) == old(self).get_spec(k),
    {
        let now = unix_now_millis();
        self.insert_at(key, value, now);
    }
}

impl<V> TtlCache<V> {
    /// Evicts every entry expired at `now` and keeps the others.
    pub fn cleanup_at(&mut self, now: i64)
        requires
            old(self).wf(),
        ensures
            final(self).wf(),
            final(self).ttl() == old(self).ttl(),
            swept(old(self).entries(), final(self).entries(), now as int),
    {
        let ghost s = self.entries@;
        let ghost ttl = self.ttl_ms;
        let mut rest: Vec<CacheEntry<V>> = Vec::new();
        std::mem::swap(&mut self.entries, &mut rest);
        let ghost mut taken: int = 0;
        while rest.len() > 0
            invariant
                0 <= taken <= s.len(),
                unique_keys(s),
                rest@ == s.subrange(taken, s.len() as int),
                self.ttl_ms == ttl,
                ttl >= 0,
                unique_keys(self.entries@),
                self.entries@.len() == live_count(s, now as int, taken as nat),
                forall|i: int|
                    0 <= i < self.entries@.len() ==> (#[trigger] self.entries@[i]).expires_at > now,
                forall|i: int|
                    0 <= i < self.entries@.len() ==> exists|j: int|
                        0 <= j < taken && s[j] == #[trigger] self.entries@[i],
                forall|j: int|
                    0 <= j < taken && (#[trigger] s[j]).expires_at > now ==> exists|i: int|
                        0 <= i < self.entries@.len() && self.entries@[i] == s[j],
            decreases rest.len(),
        {
            let e = rest.remove(0);
            proof {
                assert(e == s[taken]);
                assert(rest@ =~= s.subrange(taken + 1, s.len() as int));
            }
            if e.expires_at > now {
                let ghost before = self.entries@;
                proof {
                    assert forall|i: int| 0 <= i < before.len() implies (#[trigger] before[i]).key@
                        != e.key@ by {
                        let j = choose|j: int| 0 <= j < taken && s[j] == before[i];
                        assert(j != taken);
                    }
                    assert forall|i: int, j: int|
                        0 <= i < before.len() + 1 && 0 <= j < before.len() + 1 && i != j implies (
                        #[trigger] before.push(e)[i]).key@ != (#[trigger] before.push(e)[j]).key@ by {
                        if i < before.len() && j < before.len() {
                            assert(before.push(e)[i] == before[i]);
                            assert(before.push(e)[j] == before[j]);
                        } else if i < before.len() {
                            assert(before.push(e)[i] == before[i]);
                        } else {
                            assert(before.push(e)[j] == before[j]);
                        }
                    }
                }
                self.entries.push(e);
                proof {
                    assert(self.entries@[before.len() as int] == s[taken]);
                    assert forall|i: int| 0 <= i < self.entries@.len() implies exists|j: int|
                        0 <= j < taken + 1 && s[j] == #[trigger] self.entries@[i] by {
                        if i < before.len() {
                            assert(self.entries@[i] == before[i]);
                            let j = choose|j: int| 0 <= j < taken && s[j] == before[i];
                            assert(s[j] == self.entries@[i]);
                        } else {
                            assert(s[taken] == self.entries@[i]);
                        }
                    }
                    assert forall|j: int|
                        0 <= j < taken + 1 && (#[trigger] s[j]).expires_at > now implies exists|
                        i: int,
                    | 0 <= i < self.entries@.len() && self.entries@[i] == s[j] by {
                        if j < taken {
                            let i = choose|i: int| 0 <= i < before.len() && before[i] == s[j];
                            assert(self.entries@[i] == before[i]);
                        } else {
                            assert(self.entries@[before.len() as int] == s[j]);
                        }
                    }
                }
            }
            proof {
                taken = taken + 1;
            }
        }
        proof {
            let t = self.entries@;
            assert forall|k: Seq<char>| #[trigger] lookup(t, k) == kept_at(lookup(s, k), now as int) by {
                if exists|j: int| 0 <= j < s.len() && (#[trigger] s[j]).key@ == k {
                    let j = choose|j: int| 0 <= j < s.len() && (#[trigger] s[j]).key@ == k;
                    lemma_lookup_at(s, j);
                    if s[j].expires_at > now {
                        let i = choose|i: int| 0 <= i < t.len() && t[i] == s[j];
                        lemma_lookup_at(t, i);
                    } else {
                        assert forall|i: int| 0 <= i < t.len() implies (#[trigger] t[i]).key@ != k by {
                            let j2 = choose|j2: int| 0 <= j2 < taken && s[j2] == t[i];
                            if j2 != j {
                                assert(s[j2].key@ != s[j].key@);
                            }
                        }
                    }
                } else {
                    assert forall|i: int| 0 <= i < t.len() implies (#[trigger] t[i]).key@ != k by {
                        let j2 = choose|j2: int| 0 <= j2 < taken && s[j2] == t[i];
                    }
                }
            }
        }
    }

    /// Evicts every entry expired now.
    pub fn cleanup(&mut self)
        requires
            old(self).wf(),
        ensures
            final(self).wf(),
            final(self).ttl() == old(self).ttl(),
            exists|now: int| #[trigger] swept(old(self).entries(), final(self).entries(), now),
    {
        let now = unix_now_millis();
        self.cleanup_at(now);
    }
}

/// Once `insert_at(k, v, t0)` has run on a cache with a positive
/// time-to-live, a read of `k` at any instant from `t0` until the time-to-live
/// has elapsed finds `v` (`get_at` returns it and changes nothing); from then
/// on the read misses (`get_at` evicts the entry, one fewer entry remains) and
/// a sweep drops it, while before that a sweep keeps it.
pub proof fn lemma_entry_lifetime<V>(c: TtlCache<V>, k: Seq<char>, v: V, t0: int, later: int)
    requires
        c.wf(),
        c.ttl() > 0,
        c.get_spec(k) == Some((v, expiry(t0, c.ttl()))),
        i64::MIN <= t0 <= later <= i64::MAX,
    ensures
        later < t0 + c.ttl() && later < i64::MAX ==> expiry(t0, c.ttl()) > later && kept_at(
            c.get_spec(k),
            later,
        ) == c.get_spec(k),
        later >= t0 + c.ttl() ==> !(expiry(t0, c.ttl()) > later) && kept_at(c.get_spec(k), later)
            is None,
{
}

/// Relies on str::trim: the text without leading and trailing whitespace.
pub uninterp spec fn trimmed(s: Seq<char>) -> Seq<char>;

/// Relies on str::to_lowercase: the lowercase form of each character.
pub uninterp spec fn lowercased(s: Seq<char>) -> Seq<char>;

/// Relies on str::trim, which depends on the characters alone.
#[verifier::external_body]
pub(crate) fn trim_text(s: &str) -> (r: &str)
    ensures
        r@ == trimmed(s@),
{
    s.trim()
}

/// Relies on str::to_lowercase, which depends on the characters alone.
#[verifier::external_body]
pub(crate) fn lowercase_text(s: &str) -> (r: String)
    ensures
        r@ == lowercased(s@),
{
    s.to_lowercase()
}

/// The cache key of a location: trimmed and lowercased, so that spellings
/// differing in case or surrounding space share one entry.
pub fn normalize_cache_key(location: &str) -> (r: String)
    ensures
        r@ == lowercased(trimmed(location@)),
{
    lowercase_text(trim_text(location))
}

} // verus!
