//! One named cache with single-flight loading: concurrent misses on a key
//! share one load, whose success is stored and whose failure is not.
//!
//! The cache decides; the caller performs. `begin` tells a caller whether it
//! has a hit, must run the load itself (it leads), or must wait on the slot
//! of the load already running (it joins). The leader runs the load, reports
//! the outcome through `complete`, and publishes it on its own slot, which
//! every joiner holds a clone of.
use vstd::prelude::*;
use crate::store::{CachePolicy, CacheStore, Entry, fresh_entry, get_post, hits, lemma_put_stores, put_post};
use crate::table::Table;

verus! {

/// A load in progress for one key: the ticket its leader completes it with,
/// and the slot on which the leader publishes the outcome.
pub struct PendingLoad<W> {
    pub ticket: u64,
    pub slot: W,
}

/// What a caller of `begin` is to do.
pub enum LoadStep<V, W> {
    /// The value was cached.
    Hit(V),
    /// The caller runs the load and completes it with this ticket.
    Lead(u64),
    /// Another caller is running the load: wait on this slot.
    Join(W),
}

/// The ticket after `t`.
pub open spec fn next_ticket_after(t: u64) -> u64 {
    if t == u64::MAX { 0 } else { (t + 1) as u64 }
}

/// A cache, its name, and the loads in progress for its keys.
pub struct NamedCache<V, W> {
    name: String,
    store: CacheStore<V>,
    pending: Table<PendingLoad<W>>,
    next_ticket: u64,
}

/// What `begin` does for `key` at `now`, with `slot` offered for a new load:
/// a live entry is a hit; otherwise a load in progress is joined; otherwise
/// the caller leads a new load, registered under the next ticket (unless the
/// table of loads cannot grow).
pub open spec fn begin_post<V: Clone, W: Clone>(
    c: NamedCache<V, W>,
    key: i64,
    now: u64,
    slot: W,
    r: LoadStep<V, W>,
    c2: NamedCache<V, W>,
) -> bool {
    &&& c2.name() == c.name()
    &&& c2.policy() == c.policy()
    &&& if hits(c.entries(), c.policy(), key, now) {
        &&& get_post(c.policy(), c.entries(), key, now, Some(r->Hit_0), c2.entries())
        &&& r is Hit
        &&& c2.pending() == c.pending()
        &&& c2.ticket() == c.ticket()
    } else {
        &&& c2.entries() == c.entries().remove(key)
        &&& if c.pending().contains_key(key) {
            &&& r is Join
            &&& cloned(c.pending()[key].slot, r->Join_0)
            &&& c2.pending() == c.pending()
            &&& c2.ticket() == c.ticket()
        } else {
            &&& r == LoadStep::<V, W>::Lead(c.ticket())
            &&& c2.ticket() == next_ticket_after(c.ticket())
            &&& if c.pending().dom().len() < usize::MAX {
                c2.pending() == c.pending().insert(key, PendingLoad { ticket: c.ticket(), slot })
            } else {
                c2.pending() == c.pending()
            }
        }
    }
}

/// What `complete` does: the load registered for `key` under `ticket` leaves
/// the table and, if it produced a value, the value is stored. A ticket that
/// is no longer registered (the key was invalidated meanwhile) changes
/// nothing, so a load begun before an invalidation is never cached.
pub open spec fn complete_post<V, W>(
    c: NamedCache<V, W>,
    key: i64,
    ticket: u64,
    outcome: Option<V>,
    now: u64,
    r: bool,
    c2: NamedCache<V, W>,
) -> bool {
    &&& c2.name() == c.name()
    &&& c2.policy() == c.policy()
    &&& c2.ticket() == c.ticket()
    &&& if c.pending().contains_key(key) && c.pending()[key].ticket == ticket {
        &&& r
        &&& c2.pending() == c.pending().remove(key)
        &&& match outcome {
            Some(v) => put_post(c.policy(), c.entries(), key, v, now, c2.entries()),
            None => c2.entries() == c.entries(),
        }
    } else {
        &&& !r
        &&& c2.pending() == c.pending()
        &&& c2.entries() == c.entries()
    }
}

/// What `invalidate` does: the entry of `key` goes, and so does the record of
/// a load in progress for it, so that the next read loads afresh.
pub open spec fn invalidate_post<V, W>(c: NamedCache<V, W>, key: i64, c2: NamedCache<V, W>) -> bool {
    &&& c2.name() == c.name()
    &&& c2.policy() == c.policy()
    &&& c2.ticket() == c.ticket()
    &&& c2.entries() == c.entries().remove(key)
    &&& c2.pending() == c.pending().remove(key)
}

/// Concurrent misses share one load: of a run of `begin` calls for a key that
/// has no live entry and no load in progress, the first leads and every later
/// one joins, holding a clone of the leader's slot, on which the leader
/// publishes the one outcome; that leader's completion is then accepted.
pub proof fn lemma_single_flight<V: Clone, W: Clone>(
    states: Seq<NamedCache<V, W>>,
    times: Seq<u64>,
    slots: Seq<W>,
    steps: Seq<LoadStep<V, W>>,
    key: i64,
)
    requires
        times.len() >= 1,
        states.len() == times.len() + 1,
        slots.len() == times.len(),
        steps.len() == times.len(),
        !hits(states[0].entries(), states[0].policy(), key, times[0]),
        !states[0].pending().contains_key(key),
        states[0].pending().dom().len() < usize::MAX,
        forall|i: int|
            0 <= i < times.len() ==> begin_post(states[i], key, times[i], slots[i], #[trigger] steps[i], states[i + 1]),
    ensures
        steps[0] == LoadStep::<V, W>::Lead(states[0].ticket()),
        forall|i: int| 1 <= i < steps.len() ==> #[trigger] steps[i] is Join && cloned(slots[0], steps[i]->Join_0),
        states.last().pending().contains_key(key),
        states.last().pending()[key] == (PendingLoad { ticket: states[0].ticket(), slot: slots[0] }),
        !states.last().entries().contains_key(key),
    decreases times.len(),
{
    let n = times.len() - 1;
    assert(begin_post(states[0], key, times[0], slots[0], steps[0], states[1]));
    if n > 0 {
        lemma_single_flight(states.take(n + 1), times.take(n), slots.take(n), steps.take(n), key);
        assert(states.take(n + 1).last() == states[n]);
        assert forall|i: int| 1 <= i < n implies #[trigger] steps[i] is Join && cloned(slots[0], steps[i]->Join_0) by {
            assert(steps.take(n)[i] == steps[i]);
        }
        assert(begin_post(states[n], key, times[n], slots[n], steps[n], states[n + 1]));
        assert(!hits(states[n].entries(), states[n].policy(), key, times[n]));
    }
}

/// The completion of the load that `lemma_single_flight` registered is
/// accepted: the key leaves the table of loads and a value is stored.
pub proof fn lemma_leader_completes<V, W>(
    c: NamedCache<V, W>,
    key: i64,
    ticket: u64,
    outcome: Option<V>,
    now: u64,
    r: bool,
    c2: NamedCache<V, W>,
)
    requires
        c.pending().contains_key(key),
        c.pending()[key].ticket == ticket,
        complete_post(c, key, ticket, outcome, now, r, c2),
    ensures
        r,
        !c2.pending().contains_key(key),
        outcome is None ==> c2.entries() == c.entries(),
        outcome is Some ==> put_post(c.policy(), c.entries(), key, outcome->Some_0, now, c2.entries()),
{
}

/// Failures are not cached: after the leader reports a failed load, the next
/// caller for that key leads a new load.
pub proof fn lemma_failure_not_cached<V: Clone, W: Clone>(
    c: NamedCache<V, W>,
    key: i64,
    ticket: u64,
    now: u64,
    r: bool,
    c2: NamedCache<V, W>,
    later: u64,
    slot: W,
    step: LoadStep<V, W>,
    c3: NamedCache<V, W>,
)
    requires
        !c.entries().contains_key(key),
        c.pending().contains_key(key),
        c.pending()[key].ticket == ticket,
        complete_post(c, key, ticket, None, now, r, c2),
        begin_post(c2, key, later, slot, step, c3),
    ensures
        step == LoadStep::<V, W>::Lead(c2.ticket()),
{
}

/// After a failed load, the retry leads a new load, and when it succeeds its
/// value is stored (in a cache of positive capacity, with room to record the
/// new load).
pub proof fn lemma_retry_after_failure_stored<V: Clone, W: Clone>(
    c: NamedCache<V, W>,
    key: i64,
    ticket: u64,
    now: u64,
    r: bool,
    c2: NamedCache<V, W>,
    later: u64,
    slot: W,
    step: LoadStep<V, W>,
    c3: NamedCache<V, W>,
    value: V,
    done: u64,
    r2: bool,
    c4: NamedCache<V, W>,
)
    requires
        !c.entries().contains_key(key),
        c.pending().contains_key(key),
        c.pending()[key].ticket == ticket,
        c.policy().capacity > 0,
        complete_post(c, key, ticket, None, now, r, c2),
        c2.pending().dom().len() < usize::MAX,
        begin_post(c2, key, later, slot, step, c3),
        complete_post(c3, key, c2.ticket(), Some(value), done, r2, c4),
    ensures
        step == LoadStep::<V, W>::Lead(c2.ticket()),
        r2,
        c4.entries().contains_key(key),
        c4.entries()[key] == fresh_entry(value, done),
{
    lemma_put_stores(c3.policy(), c3.entries(), key, value, done, c4.entries());
}

/// After an invalidation of a key, the next caller for it leads a new load:
/// it is served neither the old entry nor a load begun before.
pub proof fn lemma_invalidation_forces_load<V: Clone, W: Clone>(
    c: NamedCache<V, W>,
    key: i64,
    c2: NamedCache<V, W>,
    now: u64,
    slot: W,
    step: LoadStep<V, W>,
    c3: NamedCache<V, W>,
)
    requires
        invalidate_post(c, key, c2),
        begin_post(c2, key, now, slot, step, c3),
    ensures
        step == LoadStep::<V, W>::Lead(c.ticket()),
{
}

/// Invalidating one key leaves the entry and the load in progress of every
/// other key as they were.
pub proof fn lemma_invalidation_scoped<V, W>(c: NamedCache<V, W>, key: i64, c2: NamedCache<V, W>, other: i64)
    requires
        invalidate_post(c, key, c2),
        other != key,
    ensures
        c2.entries().contains_key(other) == c.entries().contains_key(other),
        c.entries().contains_key(other) ==> c2.entries()[other] == c.entries()[other],
        c2.pending().contains_key(other) == c.pending().contains_key(other),
        c.pending().contains_key(other) ==> c2.pending()[other] == c.pending()[other],
{
}

impl<V, W> NamedCache<V, W> {
    pub closed spec fn name(&self) -> Seq<char> {
        self.name@
    }

    pub closed spec fn policy(&self) -> CachePolicy {
        self.store.policy()
    }

    /// The stored entries, expired or not.
    pub closed spec fn entries(&self) -> Map<i64, Entry<V>> {
        self.store@
    }

    /// The loads in progress, by key.
    pub closed spec fn pending(&self) -> Map<i64, PendingLoad<W>> {
        self.pending.view()
    }

    /// The ticket the next load will get.
    pub closed spec fn ticket(&self) -> u64 {
        self.next_ticket
    }

    pub closed spec fn wf(&self) -> bool {
        &&& self.store.wf()
        &&& self.pending.wf()
    }

    pub proof fn lemma_wf(&self)
        requires
            self.wf(),
        ensures
            self.entries().dom().finite(),
            self.entries().dom().len() <= self.policy().capacity,
            self.pending().dom().finite(),
    {
        self.store.lemma_wf();
    }

    /// An empty cache.
    pub fn new(name: String, policy: CachePolicy) -> (r: Self)
        ensures
            r.wf(),
            r.name() == name@,
            r.policy() == policy,
            r.entries() == Map::<i64, Entry<V>>::empty(),
            r.pending() == Map::<i64, PendingLoad<W>>::empty(),
            r.ticket() == 0,
    {
        NamedCache { name, store: CacheStore::new(policy), pending: Table::new(), next_ticket: 0 }
    }

    pub fn name_str(&self) -> (r: &str)
        ensures
            r@ == self.name(),
    {
        self.name.as_str()
    }

    pub fn configured(&self) -> (r: CachePolicy)
        ensures
            r == self.policy(),
    {
        self.store.configured()
    }

    /// The number of stored entries, counting expired ones not yet dropped.
    pub fn entry_count(&self) -> (r: u64)
        requires
            self.wf(),
        ensures
            r == self.entries().dom().len(),
    {
        self.store.entry_count()
    }

    /// Reads `key` at `now`, without loading on a miss.
    pub fn get(&mut self, key: i64, now: u64) -> (r: Option<V>)
        where
            V: Clone,
        requires
            old(self).wf(),
        ensures
            final(self).wf(),
            final(self).name() == old(self).name(),
            final(self).policy() == old(self).policy(),
            final(self).pending() == old(self).pending(),
            final(self).ticket() == old(self).ticket(),
            get_post(old(self).policy(), old(self).entries(), key, now, r, final(self).entries()),
    {
        self.store.get(key, now)
    }

    /// Stores `value` under `key` at `now`.
    pub fn put(&mut self, key: i64, value: V, now: u64)
        requires
            old(self).wf(),
        ensures
            final(self).wf(),
            final(self).name() == old(self).name(),
            final(self).policy() == old(self).policy(),
            final(self).pending() == old(self).pending(),
            final(self).ticket() == old(self).ticket(),
            put_post(old(self).policy(), old(self).entries(), key, value, now, final(self).entries()),
    {
        self.store.put(key, value, now)
    }

    /// A caller asks for `key` at `now`, offering `slot` in case it leads.
    pub fn begin(&mut self, key: i64, now: u64, slot: W) -> (r: LoadStep<V, W>)
        where
            V: Clone,
            W: Clone,
        requires
            old(self).wf(),
        ensures
            final(self).wf(),
            begin_post(*old(self), key, now, slot, r, *final(self)),
    {
        match self.store.get(key, now) {
            Some(v) => LoadStep::Hit(v),
            None => {
                match self.pending.position(key) {
                    Some(i) => {
                        let w = self.pending.item_at(i).slot.clone();
                        proof {
                            assert(self.pending.view().contains_key(self.pending.key_seq()[i as int]));
                        }
                        LoadStep::Join(w)
                    },
                    None => {
                        let ticket = self.next_ticket;
                        self.next_ticket = if ticket == u64::MAX { 0 } else { ticket + 1 };
                        if self.pending.len() < usize::MAX {
                            self.pending.push_new(key, PendingLoad { ticket, slot });
                        }
                        LoadStep::Lead(ticket)
                    },
                }
            },
        }
    }

    /// The leader of the load of `key` reports its outcome: `Some` value on
    /// success, `None` on failure. Returns whether the load was still the one
    /// registered for `key`.
    pub fn complete(&mut self, key: i64, ticket: u64, outcome: Option<V>, now: u64) -> (r: bool)
        requires
            old(self).wf(),
        ensures
            final(self).wf(),
            complete_post(*old(self), key, ticket, outcome, now, r, *final(self)),
    {
        match self.pending.position(key) {
            Some(i) => {
                proof {
                    assert(self.pending.view().contains_key(self.pending.key_seq()[i as int]));
                }
                if self.pending.item_at(i).ticket == ticket {
                    let _ = self.pending.remove_at(i);
                    match outcome {
                        Some(v) => self.store.put(key, v, now),
                        None => {},
                    }
                    true
                } else {
                    false
                }
            },
            None => false,
        }
    }

    /// Drops `key`: its entry, and the record of any load in progress for it.
    pub fn invalidate(&mut self, key: i64)
        requires
            old(self).wf(),
        ensures
            final(self).wf(),
            invalidate_post(*old(self), key, *final(self)),
    {
        self.store.invalidate(key);
        match self.pending.position(key) {
            Some(i) => {
                let _ = self.pending.remove_at(i);
            },
            None => {
                proof {
                    assert(self.pending.view().remove(key) =~= self.pending.view());
                }
            },
        }
    }
}

} // verus!
