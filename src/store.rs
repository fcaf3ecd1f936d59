//! A bounded cache of values keyed by `i64`, with age-based expiry and a
//! deterministic eviction order. Time is handed in by the caller, in
//! milliseconds, so that every operation is a function of its arguments.
use vstd::prelude::*;
use crate::table::Table;

verus! {

/// How long an entry stays live, in milliseconds.
#[derive(Clone, Copy, Debug, PartialEq, Eq, Structural)]
pub enum Expiration {
    /// Live until the given time after it was stored, however often it is read.
    TimeToLive(u64),
    /// Live until the given time after it was last stored or read.
    TimeToIdle(u64),
}

/// Which entry leaves when a new key arrives at a full cache.
#[derive(Clone, Copy, Debug, PartialEq, Eq, Structural)]
pub enum Eviction {
    /// The entry read or stored longest ago.
    LeastRecentlyUsed,
    /// The entry stored longest ago.
    LeastRecentlyInserted,
}

/// The configuration of one cache.
#[derive(Clone, Copy, Debug, PartialEq, Eq, Structural)]
pub struct CachePolicy {
    /// The largest number of entries the cache holds.
    pub capacity: usize,
    pub expiration: Expiration,
    pub eviction: Eviction,
}

/// A stored value with its bookkeeping times. The value is never changed in
/// place: a new `put` replaces the whole entry.
pub struct Entry<V> {
    pub value: V,
    pub created_at: u64,
    pub last_accessed_at: u64,
}

/// Whether `e` is still live at time `now`. An expired entry is absent to
/// every read, even while it is still stored.
pub open spec fn is_live<V>(e: Entry<V>, expiration: Expiration, now: u64) -> bool {
    match expiration {
        Expiration::TimeToLive(d) => now < e.created_at + d,
        Expiration::TimeToIdle(d) => now < e.last_accessed_at + d,
    }
}

/// The time that ranks an entry for eviction.
pub open spec fn recency<V>(e: Entry<V>, eviction: Eviction) -> u64 {
    match eviction {
        Eviction::LeastRecentlyUsed => e.last_accessed_at,
        Eviction::LeastRecentlyInserted => e.created_at,
    }
}

/// Entry `a` under key `ka` leaves before entry `b` under key `kb`: it is
/// older by the eviction time, and on equal times the smaller key goes first.
pub open spec fn evicted_before<V>(a: Entry<V>, ka: i64, b: Entry<V>, kb: i64, eviction: Eviction) -> bool {
    recency(a, eviction) < recency(b, eviction) || (recency(a, eviction) == recency(b, eviction) && ka
        < kb)
}

/// `k` is the entry that eviction removes from `m`.
pub open spec fn is_victim<V>(m: Map<i64, Entry<V>>, eviction: Eviction, k: i64) -> bool {
    &&& m.contains_key(k)
    &&& forall|k2: i64| #[trigger] m.contains_key(k2) && k2 != k ==> evicted_before(m[k], k, m[k2], k2, eviction)
}

/// The entry that `put` stores at time `now`.
pub open spec fn fresh_entry<V>(value: V, now: u64) -> Entry<V> {
    Entry { value, created_at: now, last_accessed_at: now }
}

/// `e` after a read at time `now`.
pub open spec fn touched<V>(e: Entry<V>, now: u64) -> Entry<V> {
    Entry { value: e.value, created_at: e.created_at, last_accessed_at: now }
}

/// Whether a read of `key` at `now` finds a live entry in `m`.
pub open spec fn hits<V>(m: Map<i64, Entry<V>>, p: CachePolicy, key: i64, now: u64) -> bool {
    m.contains_key(key) && is_live(m[key], p.expiration, now)
}

/// What a read of `key` at `now` does: on a hit it hands out a clone of the
/// value and records the access; otherwise it finds nothing and drops an
/// expired entry of that key.
pub open spec fn get_post<V: Clone>(
    p: CachePolicy,
    m: Map<i64, Entry<V>>,
    key: i64,
    now: u64,
    r: Option<V>,
    m2: Map<i64, Entry<V>>,
) -> bool {
    if hits(m, p, key, now) {
        &&& r is Some
        &&& cloned(m[key].value, r->Some_0)
        &&& m2 == m.insert(key, touched(m[key], now))
    } else {
        &&& r is None
        &&& m2 == m.remove(key)
    }
}

/// What storing `value` under `key` at `now` does: it replaces an entry of
/// the same key, or adds one, first evicting the victim when the cache is
/// full. A cache of capacity zero stores nothing.
pub open spec fn put_post<V>(
    p: CachePolicy,
    m: Map<i64, Entry<V>>,
    key: i64,
    value: V,
    now: u64,
    m2: Map<i64, Entry<V>>,
) -> bool {
    let e = fresh_entry(value, now);
    if p.capacity == 0 {
        m2 == m
    } else if m.contains_key(key) || m.dom().len() < p.capacity {
        m2 == m.insert(key, e)
    } else {
        exists|v: i64| #[trigger] is_victim(m, p.eviction, v) && m2 == m.remove(v).insert(key, e)
    }
}

/// Eviction is deterministic: a map has at most one victim, whatever order
/// its entries were stored in.
pub proof fn lemma_victim_unique<V>(m: Map<i64, Entry<V>>, eviction: Eviction, a: i64, b: i64)
    requires
        is_victim(m, eviction, a),
        is_victim(m, eviction, b),
    ensures
        a == b,
{
    if a != b {
        assert(evicted_before(m[a], a, m[b], b, eviction));
        assert(evicted_before(m[b], b, m[a], a, eviction));
    }
}

/// A store into a cache of positive capacity always keeps the new entry: the
/// key is present afterwards, fresh, whatever was evicted to make room.
pub proof fn lemma_put_stores<V>(
    p: CachePolicy,
    m: Map<i64, Entry<V>>,
    key: i64,
    value: V,
    now: u64,
    m2: Map<i64, Entry<V>>,
)
    requires
        p.capacity > 0,
        put_post(p, m, key, value, now, m2),
    ensures
        m2.contains_key(key),
        m2[key] == fresh_entry(value, now),
        m2[key].value == value,
{
}

/// A series of stores, of any keys, never leaves more entries than the
/// capacity, and so never more live ones.
pub proof fn lemma_puts_within_capacity<V>(
    p: CachePolicy,
    states: Seq<Map<i64, Entry<V>>>,
    keys: Seq<i64>,
    values: Seq<V>,
    times: Seq<u64>,
)
    requires
        states.len() == keys.len() + 1,
        values.len() == keys.len(),
        times.len() == keys.len(),
        states[0].dom().finite(),
        states[0].dom().len() <= p.capacity,
        forall|i: int|
            0 <= i < keys.len() ==> put_post(p, states[i], keys[i], values[i], times[i], #[trigger] states[i + 1]),
    ensures
        forall|i: int| 0 <= i < states.len() ==> #[trigger] states[i].dom().finite() && states[i].dom().len() <= p.capacity,
    decreases keys.len(),
{
    if keys.len() > 0 {
        let n = keys.len() - 1;
        lemma_puts_within_capacity(p, states.take(n + 1), keys.take(n), values.take(n), times.take(n));
        assert forall|i: int| 0 <= i < n + 1 implies #[trigger] states[i].dom().finite() && states[i].dom().len() <= p.capacity by {
            assert(states.take(n + 1)[i] == states[i]);
        }
        let m = states[n];
        let m2 = states[n + 1];
        assert(put_post(p, m, keys[n], values[n], times[n], m2));
        assert(m.dom().finite() && m.dom().len() <= p.capacity);
        let e = fresh_entry(values[n], times[n]);
        if p.capacity == 0 {
        } else if m.contains_key(keys[n]) {
            assert(m2.dom() =~= m.dom());
        } else if m.dom().len() < p.capacity {
            assert(m2.dom() =~= m.dom().insert(keys[n]));
        } else {
            let v = choose|v: i64| #[trigger] is_victim(m, p.eviction, v) && m2 == m.remove(v).insert(keys[n], e);
            assert(m2.dom() =~= m.dom().remove(v).insert(keys[n]));
            assert(m.dom().remove(v).len() == m.dom().len() - 1);
        }
        assert(m2.dom().finite() && m2.dom().len() <= p.capacity);
        assert forall|i: int| 0 <= i < states.len() implies #[trigger] states[i].dom().finite() && states[i].dom().len() <= p.capacity by {
            if i == n + 1 {
                assert(states[i] == m2);
            }
        }
    }
}

/// Under a time-to-live policy, reads never move an entry's deadline: once
/// the time reaches `created_at + d`, every read of the key finds nothing,
/// whatever reads of it or of other keys came in between.
pub proof fn lemma_ttl_expiry<V: Clone>(
    p: CachePolicy,
    states: Seq<Map<i64, Entry<V>>>,
    keys: Seq<i64>,
    times: Seq<u64>,
    results: Seq<Option<V>>,
    key: i64,
    d: u64,
)
    requires
        p.expiration == Expiration::TimeToLive(d),
        states.len() == keys.len() + 1,
        times.len() == keys.len(),
        results.len() == keys.len(),
        states[0].contains_key(key),
        forall|i: int|
            0 <= i < keys.len() ==> get_post(p, states[i], keys[i], times[i], results[i], #[trigger] states[i + 1]),
    ensures
        forall|i: int|
            0 <= i < keys.len() && keys[i] == key && times[i] >= states[0][key].created_at + d
                ==> #[trigger] results[i] is None,
{
    lemma_ttl_deadline_kept(p, states, keys, times, results, key);
    assert forall|i: int|
        0 <= i < keys.len() && keys[i] == key && times[i] >= states[0][key].created_at + d
            implies #[trigger] results[i] is None by {
        assert(get_post(p, states[i], keys[i], times[i], results[i], states[i + 1]));
    }
}

/// Under reads alone, an entry either stays with its creation time or is gone.
proof fn lemma_ttl_deadline_kept<V: Clone>(
    p: CachePolicy,
    states: Seq<Map<i64, Entry<V>>>,
    keys: Seq<i64>,
    times: Seq<u64>,
    results: Seq<Option<V>>,
    key: i64,
)
    requires
        states.len() == keys.len() + 1,
        times.len() == keys.len(),
        results.len() == keys.len(),
        states[0].contains_key(key),
        forall|i: int|
            0 <= i < keys.len() ==> get_post(p, states[i], keys[i], times[i], results[i], #[trigger] states[i + 1]),
    ensures
        forall|i: int|
            0 <= i < states.len() && #[trigger] states[i].contains_key(key) ==> states[i][key].created_at
                == states[0][key].created_at,
    decreases keys.len(),
{
    if keys.len() > 0 {
        let n = keys.len() - 1;
        lemma_ttl_deadline_kept(p, states.take(n + 1), keys.take(n), times.take(n), results.take(n), key);
        assert forall|i: int| 0 <= i < n + 1 && #[trigger] states[i].contains_key(key) implies states[i][key].created_at
            == states[0][key].created_at by {
            assert(states.take(n + 1)[i] == states[i]);
            assert(states.take(n + 1)[0] == states[0]);
        }
        assert(get_post(p, states[n], keys[n], times[n], results[n], states[n + 1]));
    }
}

/// Under a time-to-idle policy, a read before `last_accessed_at + d` finds
/// the entry and moves its deadline to `now + d`; a read from that time on
/// finds nothing.
pub proof fn lemma_tti_deadline<V: Clone>(
    p: CachePolicy,
    m: Map<i64, Entry<V>>,
    key: i64,
    now: u64,
    r: Option<V>,
    m2: Map<i64, Entry<V>>,
    d: u64,
)
    requires
        p.expiration == Expiration::TimeToIdle(d),
        m.contains_key(key),
        get_post(p, m, key, now, r, m2),
    ensures
        now < m[key].last_accessed_at + d ==> r is Some && m2.contains_key(key) && m2[key].last_accessed_at == now
            && m2[key].value == m[key].value,
        now >= m[key].last_accessed_at + d ==> r is None && !m2.contains_key(key),
{
}

/// A read or a store of one key leaves every other key's entry as it was,
/// unless the store evicts it.
pub proof fn lemma_get_other_key<V: Clone>(
    p: CachePolicy,
    m: Map<i64, Entry<V>>,
    key: i64,
    now: u64,
    r: Option<V>,
    m2: Map<i64, Entry<V>>,
    other: i64,
)
    requires
        get_post(p, m, key, now, r, m2),
        other != key,
    ensures
        m2.contains_key(other) == m.contains_key(other),
        m.contains_key(other) ==> m2[other] == m[other],
{
}

/// One cache: its policy and its entries.
pub struct CacheStore<V> {
    policy: CachePolicy,
    table: Table<Entry<V>>,
}

impl<V> CacheStore<V> {
    /// The entries held, expired or not.
    pub closed spec fn view(&self) -> Map<i64, Entry<V>> {
        self.table.view()
    }

    pub closed spec fn policy(&self) -> CachePolicy {
        self.policy
    }

    /// The store holds at most `capacity` entries.
    pub closed spec fn wf(&self) -> bool {
        &&& self.table.wf()
        &&& self.table.view().dom().len() <= self.policy.capacity
    }

    pub proof fn lemma_wf(&self)
        requires
            self.wf(),
        ensures
            self@.dom().finite(),
            self@.dom().len() <= self.policy().capacity,
    {
    }

    /// An empty cache with the given policy.
    pub fn new(policy: CachePolicy) -> (r: Self)
        ensures
            r.wf(),
            r.policy() == policy,
            r@ == Map::<i64, Entry<V>>::empty(),
    {
        CacheStore { policy, table: Table::new() }
    }

    pub fn configured(&self) -> (r: CachePolicy)
        ensures
            r == self.policy(),
    {
        self.policy
    }

    /// The number of entries held, counting expired ones that no read has
    /// dropped yet: this is the pressure on the capacity, not the number of
    /// live entries.
    pub fn entry_count(&self) -> (r: u64)
        requires
            self.wf(),
        ensures
            r == self@.dom().len(),
    {
        self.table.len() as u64
    }

    fn entry_is_live(e: &Entry<V>, expiration: Expiration, now: u64) -> (r: bool)
        ensures
            r == is_live(*e, expiration, now),
    {
        match expiration {
            Expiration::TimeToLive(d) => now < e.created_at || now - e.created_at < d,
            Expiration::TimeToIdle(d) => now < e.last_accessed_at || now - e.last_accessed_at < d,
        }
    }

    fn recency_of(e: &Entry<V>, eviction: Eviction) -> (r: u64)
        ensures
            r == recency(*e, eviction),
    {
        match eviction {
            Eviction::LeastRecentlyUsed => e.last_accessed_at,
            Eviction::LeastRecentlyInserted => e.created_at,
        }
    }

    /// The slot of the eviction victim.
    fn victim_slot(&self) -> (r: usize)
        requires
            self.wf(),
            self@.dom().len() > 0,
        ensures
            r < self.table.key_seq().len(),
            is_victim(self@, self.policy().eviction, self.table.key_seq()[r as int]),
    {
        let ev = self.policy.eviction;
        let n = self.table.len();
        let ghost ks = self.table.key_seq();
        let ghost its = self.table.item_seq();
        let mut best: usize = 0;
        let mut best_time = Self::recency_of(self.table.item_at(0), ev);
        let mut best_key = self.table.key_at(0);
        let mut j: usize = 1;
        while j < n
            invariant
                self.wf(),
                n == ks.len(),
                ks == self.table.key_seq(),
                its == self.table.item_seq(),
                ev == self.policy().eviction,
                best < j <= n,
                best_time == recency(its[best as int], ev),
                best_key == ks[best as int],
                forall|t: int|
                    0 <= t < j && t != best ==> evicted_before(its[best as int], ks[best as int], #[trigger] its[t], ks[t], ev),
            decreases n - j,
        {
            let t = Self::recency_of(self.table.item_at(j), ev);
            let k = self.table.key_at(j);
            if t < best_time || (t == best_time && k < best_key) {
                best = j;
                best_time = t;
                best_key = k;
            } else {
                assert(ks[j as int] != ks[best as int]);
            }
            j = j + 1;
        }
        proof {
            let m = self@;
            assert forall|k2: i64| #[trigger] m.contains_key(k2) && k2 != ks[best as int] implies evicted_before(
                m[ks[best as int]],
                ks[best as int],
                m[k2],
                k2,
                ev,
            ) by {
                let t = choose|t: int| 0 <= t < ks.len() && ks[t] == k2;
                assert(m.contains_key(ks[t]));
                assert(m.contains_key(ks[best as int]));
            }
            assert(m.contains_key(ks[best as int]));
        }
        best
    }

    /// Reads `key` at time `now`.
    pub fn get(&mut self, key: i64, now: u64) -> (r: Option<V>)
        where
            V: Clone,
        requires
            old(self).wf(),
        ensures
            final(self).wf(),
            final(self).policy() == old(self).policy(),
            get_post(old(self).policy(), old(self)@, key, now, r, final(self)@),
    {
        match self.table.position(key) {
            None => {
                proof {
                    assert(self@.remove(key) =~= self@);
                }
                None
            },
            Some(i) => {
                let e = self.table.remove_at(i);
                if Self::entry_is_live(&e, self.policy.expiration, now) {
                    let value = e.value.clone();
                    let renewed = Entry { value: e.value, created_at: e.created_at, last_accessed_at: now };
                    self.table.push_new(key, renewed);
                    proof {
                        assert(self@ =~= old(self)@.insert(key, touched(old(self)@[key], now)));
                    }
                    Some(value)
                } else {
                    None
                }
            },
        }
    }

    /// Stores `value` under `key` at time `now`.
    pub fn put(&mut self, key: i64, value: V, now: u64)
        requires
            old(self).wf(),
        ensures
            final(self).wf(),
            final(self).policy() == old(self).policy(),
            put_post(old(self).policy(), old(self)@, key, value, now, final(self)@),
    {
        if self.policy.capacity == 0 {
            return;
        }
        let e = Entry { value, created_at: now, last_accessed_at: now };
        match self.table.position(key) {
            Some(i) => {
                proof {
                    assert(self@.contains_key(self.table.key_seq()[i as int]));
                }
                self.table.set_at(i, e);
            },
            None => {
                if self.table.len() >= self.policy.capacity {
                    let v = self.victim_slot();
                    let ghost victim = self.table.key_seq()[v as int];
                    let ghost before = self@;
                    let _ = self.table.remove_at(v);
                    proof {
                        assert(before.contains_key(victim));
                        assert(self@.dom().len() < before.dom().len());
                    }
                    self.table.push_new(key, e);
                    proof {
                        assert(is_victim(old(self)@, self.policy.eviction, victim));
                        assert(self@ == old(self)@.remove(victim).insert(key, e));
                        assert(!old(self)@.contains_key(key));
                        assert(old(self)@.dom().len() >= self.policy.capacity);
                    }
                } else {
                    self.table.push_new(key, e);
                }
            },
        }
    }

    /// Drops the entry of `key`, if there is one.
    pub fn invalidate(&mut self, key: i64)
        requires
            old(self).wf(),
        ensures
            final(self).wf(),
            final(self).policy() == old(self).policy(),
            final(self)@ == old(self)@.remove(key),
    {
        match self.table.position(key) {
            Some(i) => {
                let _ = self.table.remove_at(i);
            },
            None => {
                proof {
                    assert(self@.remove(key) =~= self@);
                }
            },
        }
    }
}

} // verus!
