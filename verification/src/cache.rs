//! The result cache.
//!
//! A key to payload store where every entry carries its creation time and a
//! time-to-live.  An entry is visible only while `now - created_at < ttl`;
//! expired entries are purged lazily on the next read and are never served.
//! Payloads are deep-copied on both write and read, so the cache owns its
//! copies exclusively.

use vstd::prelude::*;
use crate::models::{clone_payload, Payload, PayloadV};

verus! {

/// Largest timestamp and time-to-live (milliseconds) the cache accepts.
pub const CACHE_TIME_MAX: i64 = 4_000_000_000_000_000;

/// One stored entry.
pub struct CacheEntry {
    pub key: Vec<u8>,
    pub payload: Payload,
    pub created_at: i64,
    pub ttl: i64,
}

/// The key to payload store.
pub struct ResultCache {
    pub entries: Vec<CacheEntry>,
}

/// The abstract value of one entry.
pub struct EntryV {
    pub key: Seq<u8>,
    pub payload: PayloadV,
    pub created_at: int,
    pub ttl: int,
}

impl View for CacheEntry {
    type V = EntryV;

    open spec fn view(&self) -> EntryV {
        EntryV {
            key: self.key@,
            payload: self.payload@,
            created_at: self.created_at as int,
            ttl: self.ttl as int,
        }
    }
}

impl View for ResultCache {
    type V = Seq<EntryV>;

    open spec fn view(&self) -> Seq<EntryV> {
        self.entries@.map_values(|e: CacheEntry| e@)
    }
}

/// An entry is visible at `now` while its age is below its time-to-live.
pub open spec fn entry_live(e: EntryV, now: int) -> bool {
    now - e.created_at < e.ttl
}

/// Entry timestamps stay in a range where age arithmetic cannot overflow,
/// and keys are unique.
pub open spec fn cache_wf(s: Seq<EntryV>) -> bool {
    &&& forall|i: int|
        0 <= i < s.len() ==> 0 <= (#[trigger] s[i]).created_at <= CACHE_TIME_MAX && 0 <= s[i].ttl
            <= CACHE_TIME_MAX
    &&& forall|i: int, j: int| 0 <= i < j < s.len() ==> (#[trigger] s[i]).key != (#[trigger] s[j]).key
}

/// What a lookup yields: the payload of the first (only) live entry under
/// the key.
pub open spec fn lookup_spec(s: Seq<EntryV>, key: Seq<u8>, now: int) -> Option<PayloadV>
    decreases s.len(),
{
    if s.len() == 0 {
        None
    } else if s[0].key == key {
        if entry_live(s[0], now) {
            Some(s[0].payload)
        } else {
            None
        }
    } else {
        lookup_spec(s.drop_first(), key, now)
    }
}

/// Lazy expiry: the entries that are still live at `now`, in order.
pub open spec fn evict_spec(s: Seq<EntryV>, now: int) -> Seq<EntryV>
    decreases s.len(),
{
    if s.len() == 0 {
        s
    } else if entry_live(s[0], now) {
        seq![s[0]] + evict_spec(s.drop_first(), now)
    } else {
        evict_spec(s.drop_first(), now)
    }
}

/// What an insert yields: the first entry under the key is replaced, or a
/// new entry is appended.
pub open spec fn insert_spec(s: Seq<EntryV>, e: EntryV) -> Seq<EntryV>
    decreases s.len(),
{
    if s.len() == 0 {
        seq![e]
    } else if s[0].key == e.key {
        seq![e] + s.drop_first()
    } else {
        seq![s[0]] + insert_spec(s.drop_first(), e)
    }
}

impl ResultCache {
    pub fn new() -> (r: ResultCache)
        ensures
            r@ =~= Seq::<EntryV>::empty(),
            cache_wf(r@),
    {
        ResultCache { entries: Vec::new() }
    }

    /// How many entries the cache holds.
    pub fn len(&self) -> (r: usize)
        ensures
            r == self@.len(),
    {
        self.entries.len()
    }

    /// Looks a key up at time `now`.  Entries whose age exceeds their
    /// time-to-live are purged and never served; a live entry is handed out
    /// as a deep copy.
    #[verifier::loop_isolation(false)]
    pub fn get(&mut self, key: &Vec<u8>, now: i64) -> (r: Option<Payload>)
        requires
            cache_wf(old(self)@),
            0 <= now <= CACHE_TIME_MAX,
        ensures
            cache_wf(final(self)@),
            final(self)@ == evict_spec(old(self)@, now as int),
            match r {
                Some(p) => lookup_spec(old(self)@, key@, now as int) == Some(p@),
                None => lookup_spec(old(self)@, key@, now as int) is None,
            },
    {
        let ghost s0 = self@;
        let mut kept: Vec<CacheEntry> = Vec::new();
        let mut result: Option<Payload> = None;
        let mut i: usize = 0;
        let n = self.entries.len();
        while i < n
            invariant
                i <= n == self.entries@.len(),
                self@ == s0,
                kept@.map_values(|e: CacheEntry| e@) == evict_spec(s0.take(i as int), now as int),
                match result {
                    Some(p) => lookup_spec(s0.take(i as int), key@, now as int) == Some(p@),
                    None => lookup_spec(s0.take(i as int), key@, now as int) is None,
                },
            decreases n - i,
        {
            let e = &self.entries[i];
            assert(e@ == s0[i as int]);
            let live = now - e.created_at < e.ttl;
            proof {
                lemma_take_step(s0, i as int, now as int, key@);
            }
            if live {
                if result.is_none() {
                    let mut eq = e.key.len() == key.len();
                    if eq {
                        eq = crate::text::bytes_eq(e.key.as_slice(), key.as_slice());
                    }
                    if eq {
                        proof {
                            lemma_exists_key_iff(s0.take(i as int), key@);
                            if exists_key(s0.take(i as int), key@) {
                                let j = choose|j: int|
                                    0 <= j < s0.take(i as int).len() && (#[trigger] s0.take(
                                        i as int,
                                    )[j]).key == key@;
                                assert(s0[j].key == s0[i as int].key);
                            }
                        }
                        result = Some(clone_payload(&e.payload));
                    }
                }
                kept.push(
                    CacheEntry {
                        key: crate::models::copy_bytes(&e.key),
                        payload: clone_payload(&e.payload),
                        created_at: e.created_at,
                        ttl: e.ttl,
                    },
                );
            } else {
                if result.is_none() {
                    let mut eq = e.key.len() == key.len();
                    if eq {
                        eq = crate::text::bytes_eq(e.key.as_slice(), key.as_slice());
                    }
                    proof {
                        if e@.key == key@ {
                            assert(lookup_spec(s0.take(i + 1 as int), key@, now as int) is None);
                        }
                    }
                }
            }
            proof {
                assert(kept@.map_values(|en: CacheEntry| en@) =~= evict_spec(
                    s0.take(i + 1 as int),
                    now as int,
                ));
            }
            i = i + 1;
        }
        proof {
            assert(s0.take(n as int) =~= s0);
        }
        self.entries = kept;
        proof {
            lemma_evict_wf(s0, now as int);
        }
        result
    }

    /// Stores a payload under a key with a time-to-live, replacing any
    /// earlier entry under the same key; the payload is deep-copied.
    #[verifier::loop_isolation(false)]
    pub fn put(&mut self, key: &Vec<u8>, payload: &Payload, now: i64, ttl: i64) -> (r: ())
        requires
            cache_wf(old(self)@),
            0 <= now <= CACHE_TIME_MAX,
            0 <= ttl <= CACHE_TIME_MAX,
        ensures
            cache_wf(final(self)@),
            final(self)@ == insert_spec(
                old(self)@,
                EntryV { key: key@, payload: payload@, created_at: now as int, ttl: ttl as int },
            ),
    {
        let ghost s0 = self@;
        let ghost ev = EntryV {
            key: key@,
            payload: payload@,
            created_at: now as int,
            ttl: ttl as int,
        };
        let n = self.entries.len();
        let mut i: usize = 0;
        while i < n
            invariant
                i <= n == self.entries@.len(),
                self@ == s0,
                forall|j: int| 0 <= j < i ==> (#[trigger] s0[j]).key != key@,
            decreases n - i,
        {
            let e = &self.entries[i];
            let mut eq = e.key.len() == key.len();
            if eq {
                eq = crate::text::bytes_eq(e.key.as_slice(), key.as_slice());
            }
            if eq {
                let fresh = CacheEntry {
                    key: crate::models::copy_bytes(key),
                    payload: clone_payload(payload),
                    created_at: now,
                    ttl,
                };
                self.entries.set(i, fresh);
                proof {
                    lemma_insert_replaces(s0, ev, i as int);
                    assert(self@ =~= s0.update(i as int, ev));
                    lemma_insert_wf_replace(s0, ev, i as int);
                }
                return ;
            }
            i = i + 1;
        }
        let fresh = CacheEntry {
            key: crate::models::copy_bytes(key),
            payload: clone_payload(payload),
            created_at: now,
            ttl,
        };
        self.entries.push(fresh);
        proof {
            lemma_insert_appends(s0, ev);
            assert(self@ =~= s0.push(ev));
        }
    }
}

/// Unfolds one step of the lookup and eviction specs along a prefix.
proof fn lemma_take_step(s: Seq<EntryV>, i: int, now: int, key: Seq<u8>)
    requires
        0 <= i < s.len(),
    ensures
        evict_spec(s.take(i + 1), now) == (if entry_live(s[i], now) {
            evict_spec(s.take(i), now) + seq![s[i]]
        } else {
            evict_spec(s.take(i), now)
        }),
        lookup_spec(s.take(i + 1), key, now) == (if lookup_spec(s.take(i), key, now) is Some {
            lookup_spec(s.take(i), key, now)
        } else if exists_key(s.take(i), key) {
            None::<PayloadV>
        } else if s[i].key == key {
            if entry_live(s[i], now) {
                Some(s[i].payload)
            } else {
                None::<PayloadV>
            }
        } else {
            None::<PayloadV>
        }),
    decreases i,
{
    if i == 0 {
        assert(s.take(1) =~= seq![s[0]]);
        assert(s.take(1).drop_first() =~= Seq::<EntryV>::empty());
        assert(s.take(0) =~= Seq::<EntryV>::empty());
    } else {
        assert(s.take(i + 1).drop_first() =~= s.drop_first().take(i));
        assert(s.take(i).drop_first() =~= s.drop_first().take(i - 1));
        lemma_take_step(s.drop_first(), i - 1, now, key);
        assert(s.drop_first()[i - 1] == s[i]);
        if s[0].key == key {
        } else {
            assert(exists_key(s.take(i), key) == exists_key(s.drop_first().take(i - 1), key));
        }
        if entry_live(s[0], now) {
            assert(evict_spec(s.take(i + 1), now) == seq![s[0]] + evict_spec(
                s.drop_first().take(i),
                now,
            ));
            assert(seq![s[0]] + (evict_spec(s.drop_first().take(i - 1), now) + seq![s[i]]) =~= (
            seq![s[0]] + evict_spec(s.drop_first().take(i - 1), now)) + seq![s[i]]);
        }
    }
}

/// An entry with the key exists exactly when some index carries it.
proof fn lemma_exists_key_iff(s: Seq<EntryV>, key: Seq<u8>)
    ensures
        exists_key(s, key) <==> exists|i: int| 0 <= i < s.len() && (#[trigger] s[i]).key == key,
    decreases s.len(),
{
    if s.len() > 0 {
        lemma_exists_key_iff(s.drop_first(), key);
        if s[0].key == key {
        } else {
            if exists_key(s.drop_first(), key) {
                let i = choose|i: int|
                    0 <= i < s.drop_first().len() && (#[trigger] s.drop_first()[i]).key == key;
                assert(s[i + 1].key == key);
            }
            if exists|i: int| 0 <= i < s.len() && (#[trigger] s[i]).key == key {
                let i = choose|i: int| 0 <= i < s.len() && (#[trigger] s[i]).key == key;
                assert(s.drop_first()[i - 1].key == key);
            }
        }
    }
}

/// Whether some entry carries the key.
pub open spec fn exists_key(s: Seq<EntryV>, key: Seq<u8>) -> bool
    decreases s.len(),
{
    if s.len() == 0 {
        false
    } else if s[0].key == key {
        true
    } else {
        exists_key(s.drop_first(), key)
    }
}

/// Eviction keeps well-formedness: it only drops entries.
proof fn lemma_evict_wf(s: Seq<EntryV>, now: int)
    requires
        cache_wf(s),
    ensures
        cache_wf(evict_spec(s, now)),
        forall|i: int|
            0 <= i < evict_spec(s, now).len() ==> exists|j: int|
                0 <= j < s.len() && #[trigger] evict_spec(s, now)[i] == s[j],
    decreases s.len(),
{
    if s.len() > 0 {
        assert(cache_wf(s.drop_first())) by {
            assert(forall|i: int, j: int|
                0 <= i < j < s.drop_first().len() ==> (#[trigger] s.drop_first()[i]).key != (
                #[trigger] s.drop_first()[j]).key) by {
                assert(forall|i: int|
                    0 <= i < s.drop_first().len() ==> #[trigger] s.drop_first()[i] == s[i + 1]);
            }
        }
        lemma_evict_wf(s.drop_first(), now);
        let rest = evict_spec(s.drop_first(), now);
        if entry_live(s[0], now) {
            let whole = seq![s[0]] + rest;
            assert forall|i: int, j: int| 0 <= i < j < whole.len() implies (
            #[trigger] whole[i]).key != (#[trigger] whole[j]).key by {
                if i == 0 {
                    let jw = choose|jw: int|
                        0 <= jw < s.drop_first().len() && rest[j - 1] == s.drop_first()[jw];
                    assert(s.drop_first()[jw] == s[jw + 1]);
                    assert(whole[j] == s[jw + 1]);
                } else {
                    assert(whole[i] == rest[i - 1] && whole[j] == rest[j - 1]);
                }
            }
            assert forall|i: int| 0 <= i < whole.len() implies exists|j: int|
                0 <= j < s.len() && #[trigger] whole[i] == s[j] by {
                if i == 0 {
                    assert(whole[0] == s[0]);
                } else {
                    let jw = choose|jw: int|
                        0 <= jw < s.drop_first().len() && rest[i - 1] == s.drop_first()[jw];
                    assert(whole[i] == s[jw + 1]);
                }
            }
        } else {
            assert forall|i: int| 0 <= i < rest.len() implies exists|j: int|
                0 <= j < s.len() && #[trigger] rest[i] == s[j] by {
                let jw = choose|jw: int|
                    0 <= jw < s.drop_first().len() && rest[i] == s.drop_first()[jw];
                assert(rest[i] == s[jw + 1]);
            }
        }
    }
}

/// Replacing the only matching entry in place realizes `insert_spec`.
proof fn lemma_insert_replaces(s: Seq<EntryV>, e: EntryV, i: int)
    requires
        0 <= i < s.len(),
        s[i].key == e.key,
        forall|j: int| 0 <= j < i ==> (#[trigger] s[j]).key != e.key,
    ensures
        insert_spec(s, e) == s.update(i, e),
    decreases i,
{
    if i == 0 {
        assert(insert_spec(s, e) == seq![e] + s.drop_first());
        assert(seq![e] + s.drop_first() =~= s.update(0, e));
    } else {
        assert(s.drop_first()[i - 1] == s[i]);
        assert(forall|j: int|
            0 <= j < i - 1 ==> (#[trigger] s.drop_first()[j]).key == s[j + 1].key);
        lemma_insert_replaces(s.drop_first(), e, i - 1);
        assert(seq![s[0]] + s.drop_first().update(i - 1, e) =~= s.update(i, e));
    }
}

/// Replacing in place keeps well-formedness.
proof fn lemma_insert_wf_replace(s: Seq<EntryV>, e: EntryV, i: int)
    requires
        cache_wf(s),
        0 <= i < s.len(),
        s[i].key == e.key,
        0 <= e.created_at <= CACHE_TIME_MAX,
        0 <= e.ttl <= CACHE_TIME_MAX,
    ensures
        cache_wf(s.update(i, e)),
{
    let u = s.update(i, e);
    assert forall|a: int, b: int| 0 <= a < b < u.len() implies (#[trigger] u[a]).key != (
    #[trigger] u[b]).key by {
        if a != i && b != i {
            assert(u[a] == s[a] && u[b] == s[b]);
        } else if a == i {
            assert(u[a].key == s[i].key && u[b] == s[b]);
        } else {
            assert(u[b].key == s[i].key && u[a] == s[a]);
        }
    }
}

/// Appending a fresh key realizes `insert_spec`.
proof fn lemma_insert_appends(s: Seq<EntryV>, e: EntryV)
    requires
        forall|j: int| 0 <= j < s.len() ==> (#[trigger] s[j]).key != e.key,
    ensures
        insert_spec(s, e) == s.push(e),
    decreases s.len(),
{
    if s.len() == 0 {
        assert(insert_spec(s, e) =~= s.push(e));
    } else {
        assert(forall|j: int|
            0 <= j < s.drop_first().len() ==> (#[trigger] s.drop_first()[j]).key == s[j + 1].key);
        lemma_insert_appends(s.drop_first(), e);
        assert(seq![s[0]] + s.drop_first().push(e) =~= s.push(e));
    }
}

/// Cache time-to-live law: an entry stored at `t0` with time-to-live `ttl`
/// is retrievable one tick before expiry and absent one tick after.
pub proof fn lemma_cache_ttl(s: Seq<EntryV>, key: Seq<u8>, p: PayloadV, t0: int, ttl: int)
    requires
        ttl >= 1,
    ensures
        lookup_spec(
            insert_spec(s, EntryV { key, payload: p, created_at: t0, ttl }),
            key,
            t0 + ttl - 1,
        ) == Some(p),
        lookup_spec(
            insert_spec(s, EntryV { key, payload: p, created_at: t0, ttl }),
            key,
            t0 + ttl + 1,
        ) is None,
    decreases s.len(),
{
    let e = EntryV { key, payload: p, created_at: t0, ttl };
    if s.len() == 0 {
        assert(insert_spec(s, e) == seq![e]);
        assert(insert_spec(s, e)[0] == e);
        assert(entry_live(e, t0 + ttl - 1));
        assert(!entry_live(e, t0 + ttl + 1));
    } else if s[0].key == key {
        let w = seq![e] + s.drop_first();
        assert(insert_spec(s, e) == w);
        assert(w[0] == e);
        assert(entry_live(e, t0 + ttl - 1));
        assert(!entry_live(e, t0 + ttl + 1));
    } else {
        lemma_cache_ttl(s.drop_first(), key, p, t0, ttl);
        let w = seq![s[0]] + insert_spec(s.drop_first(), e);
        assert(insert_spec(s, e) == w);
        assert(w[0] == s[0]);
        assert(w.drop_first() =~= insert_spec(s.drop_first(), e));
    }
}

} // verus!
