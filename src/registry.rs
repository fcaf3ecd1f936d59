//! The fixed set of named caches a service uses, built at startup and then
//! reached by name: reads, stores, single-flight loads, invalidation after a
//! commit, and entry counts for observation.
//!
//! Every operation here is a short in-memory step that never waits on a load:
//! callers that share a registry between tasks hold it behind a lock for the
//! length of one call, and run loads and waits outside it.
use vstd::prelude::*;
use vstd::string::StrSliceExecFns;
use crate::flight::{
    LoadStep, NamedCache, PendingLoad, begin_post, complete_post, invalidate_post,
};
use crate::store::{CachePolicy, Entry, get_post, put_post};

verus! {

/// Why a registry call did nothing.
#[derive(Clone, Copy, Debug, PartialEq, Eq, Structural)]
pub enum RegistryError {
    /// No cache has the name asked for.
    UnknownCache,
    /// A cache of that name is already registered.
    DuplicateName,
}

/// A cache's name and its number of stored entries.
pub struct CacheCount {
    pub name: String,
    pub entries: u64,
}

/// The named caches, each name once.
pub struct Registry<V, W> {
    caches: Vec<NamedCache<V, W>>,
}

/// Whether some cache of `caches` is named `name`.
pub open spec fn names_cache<V, W>(caches: Seq<NamedCache<V, W>>, name: Seq<char>) -> bool {
    exists|i: int| 0 <= i < caches.len() && #[trigger] caches[i].name() == name
}

/// `caches2` is `caches` with the cache at `i` replaced, and that cache is
/// the one named `name`.
pub open spec fn changes_only<V, W>(
    caches: Seq<NamedCache<V, W>>,
    name: Seq<char>,
    i: int,
    caches2: Seq<NamedCache<V, W>>,
) -> bool {
    &&& 0 <= i < caches.len()
    &&& caches[i].name() == name
    &&& caches2 == caches.update(i, caches2[i])
}

/// `caches2` has the caches of `caches`, under the same names, in the same order.
pub open spec fn same_names<V, W>(caches: Seq<NamedCache<V, W>>, caches2: Seq<NamedCache<V, W>>) -> bool {
    &&& caches2.len() == caches.len()
    &&& forall|j: int| 0 <= j < caches.len() ==> #[trigger] caches2[j].name() == caches[j].name()
}

fn same_name(a: &str, b: &str) -> (r: bool)
    ensures
        r == (a@ == b@),
{
    let n = a.unicode_len();
    if n != b.unicode_len() {
        return false;
    }
    let mut i: usize = 0;
    while i < n
        invariant
            n == a@.len(),
            n == b@.len(),
            i <= n,
            forall|j: int| 0 <= j < i ==> a@[j] == b@[j],
        decreases n - i,
    {
        if a.get_char(i) != b.get_char(i) {
            return false;
        }
        i = i + 1;
    }
    assert(a@ =~= b@);
    true
}

impl<V, W> Registry<V, W> {
    pub closed spec fn caches(&self) -> Seq<NamedCache<V, W>> {
        self.caches@
    }

    /// Every cache is well formed and no two share a name.
    pub open spec fn wf(&self) -> bool {
        &&& forall|i: int| 0 <= i < self.caches().len() ==> #[trigger] self.caches()[i].wf()
        &&& forall|i: int, j: int|
            0 <= i < self.caches().len() && 0 <= j < self.caches().len() && i != j
                ==> #[trigger] self.caches()[i].name() != #[trigger] self.caches()[j].name()
    }

    /// A registry with no cache yet.
    pub fn new() -> (r: Self)
        ensures
            r.wf(),
            r.caches() == Seq::<NamedCache<V, W>>::empty(),
    {
        Registry { caches: Vec::new() }
    }

    /// Adds a cache named `name` with `policy`; a name already taken is refused.
    pub fn register(&mut self, name: String, policy: CachePolicy) -> (r: Result<(), RegistryError>)
        requires
            old(self).wf(),
        ensures
            final(self).wf(),
            match r {
                Ok(()) => {
                    &&& !names_cache(old(self).caches(), name@)
                    &&& final(self).caches().len() == old(self).caches().len() + 1
                    &&& final(self).caches().drop_last() == old(self).caches()
                    &&& final(self).caches().last().name() == name@
                    &&& final(self).caches().last().policy() == policy
                    &&& final(self).caches().last().entries() == Map::<i64, Entry<V>>::empty()
                    &&& final(self).caches().last().pending() == Map::<i64, PendingLoad<W>>::empty()
                },
                Err(e) => {
                    &&& e == RegistryError::DuplicateName
                    &&& names_cache(old(self).caches(), name@)
                    &&& final(self).caches() == old(self).caches()
                },
            },
    {
        match self.find(name.as_str()) {
            Some(_) => Err(RegistryError::DuplicateName),
            None => {
                let c = NamedCache::new(name, policy);
                self.caches.push(c);
                proof {
                    assert(self.caches@.drop_last() =~= old(self).caches@);
                    assert forall|i: int, j: int|
                        0 <= i < self.caches().len() && 0 <= j < self.caches().len() && i != j
                            implies #[trigger] self.caches()[i].name() != #[trigger] self.caches()[j].name() by {
                        if i < old(self).caches().len() && j < old(self).caches().len() {
                            assert(self.caches()[i] == old(self).caches()[i]);
                            assert(self.caches()[j] == old(self).caches()[j]);
                        } else if i < old(self).caches().len() {
                            assert(self.caches()[i] == old(self).caches()[i]);
                        } else {
                            assert(self.caches()[j] == old(self).caches()[j]);
                        }
                    }
                    assert forall|i: int| 0 <= i < self.caches().len() implies #[trigger] self.caches()[i].wf() by {
                        if i < old(self).caches().len() {
                            assert(self.caches()[i] == old(self).caches()[i]);
                        }
                    }
                }
                Ok(())
            },
        }
    }

    /// The index of the cache named `name`.
    pub fn find(&self, name: &str) -> (r: Option<usize>)
        ensures
            match r {
                Some(i) => i < self.caches().len() && self.caches()[i as int].name() == name@,
                None => !names_cache(self.caches(), name@),
            },
    {
        let mut i: usize = 0;
        while i < self.caches.len()
            invariant
                i <= self.caches@.len(),
                forall|j: int| 0 <= j < i ==> #[trigger] self.caches@[j].name() != name@,
            decreases self.caches@.len() - i,
        {
            if same_name(self.caches[i].name_str(), name) {
                return Some(i);
            }
            i = i + 1;
        }
        None
    }

    /// The name and the stored-entry count of every cache, in registration
    /// order. Reading them changes nothing.
    pub fn stats(&self) -> (r: Vec<CacheCount>)
        requires
            self.wf(),
        ensures
            r@.len() == self.caches().len(),
            forall|i: int|
                0 <= i < r@.len() ==> #[trigger] r@[i].name@ == self.caches()[i].name() && r@[i].entries
                    == self.caches()[i].entries().dom().len(),
    {
        let mut r: Vec<CacheCount> = Vec::new();
        let mut i: usize = 0;
        while i < self.caches.len()
            invariant
                self.wf(),
                i <= self.caches@.len(),
                r@.len() == i,
                forall|j: int|
                    0 <= j < i ==> #[trigger] r@[j].name@ == self.caches()[j].name() && r@[j].entries
                        == self.caches()[j].entries().dom().len(),
            decreases self.caches@.len() - i,
        {
            let c = &self.caches[i];
            proof {
                assert(self.caches()[i as int].wf());
            }
            r.push(CacheCount { name: String::from_str(c.name_str()), entries: c.entry_count() });
            i = i + 1;
        }
        r
    }

    /// The stored-entry count of the cache named `name`.
    pub fn entry_count(&self, name: &str) -> (r: Result<u64, RegistryError>)
        requires
            self.wf(),
        ensures
            match r {
                Ok(n) => exists|i: int|
                    0 <= i < self.caches().len() && #[trigger] self.caches()[i].name() == name@ && n
                        == self.caches()[i].entries().dom().len(),
                Err(e) => e == RegistryError::UnknownCache && !names_cache(self.caches(), name@),
            },
    {
        match self.find(name) {
            Some(i) => {
                proof {
                    assert(self.caches()[i as int].wf());
                }
                Ok(self.caches[i].entry_count())
            },
            None => Err(RegistryError::UnknownCache),
        }
    }

    proof fn lemma_update_keeps_wf(old_caches: Seq<NamedCache<V, W>>, i: int, c: NamedCache<V, W>, new_caches: Seq<NamedCache<V, W>>)
        requires
            0 <= i < old_caches.len(),
            forall|j: int| 0 <= j < old_caches.len() ==> #[trigger] old_caches[j].wf(),
            forall|a: int, b: int|
                0 <= a < old_caches.len() && 0 <= b < old_caches.len() && a != b
                    ==> #[trigger] old_caches[a].name() != #[trigger] old_caches[b].name(),
            c.wf(),
            c.name() == old_caches[i].name(),
            new_caches == old_caches.update(i, c),
        ensures
            forall|j: int| 0 <= j < new_caches.len() ==> #[trigger] new_caches[j].wf(),
            forall|a: int, b: int|
                0 <= a < new_caches.len() && 0 <= b < new_caches.len() && a != b
                    ==> #[trigger] new_caches[a].name() != #[trigger] new_caches[b].name(),
    {
        assert forall|a: int, b: int|
            0 <= a < new_caches.len() && 0 <= b < new_caches.len() && a != b
                implies #[trigger] new_caches[a].name() != #[trigger] new_caches[b].name() by {
            assert(new_caches[a].name() == old_caches[a].name());
            assert(new_caches[b].name() == old_caches[b].name());
        }
    }

    /// Reads `key` of the cache `name` at `now`, without loading on a miss.
    pub fn get(&mut self, name: &str, key: i64, now: u64) -> (r: Result<Option<V>, RegistryError>)
        where
            V: Clone,
        requires
            old(self).wf(),
        ensures
            final(self).wf(),
            same_names(old(self).caches(), final(self).caches()),
            match r {
                Ok(v) => exists|i: int|
                    #[trigger] changes_only(old(self).caches(), name@, i, final(self).caches())
                        && get_post(old(self).caches()[i].policy(), old(self).caches()[i].entries(), key, now, v, final(self).caches()[i].entries())
                        && final(self).caches()[i].pending() == old(self).caches()[i].pending()
                        && final(self).caches()[i].ticket() == old(self).caches()[i].ticket()
                        && final(self).caches()[i].policy() == old(self).caches()[i].policy(),
                Err(e) => e == RegistryError::UnknownCache && !names_cache(old(self).caches(), name@)
                    && final(self).caches() == old(self).caches(),
            },
    {
        match self.find(name) {
            Some(i) => {
                proof {
                    assert(self.caches()[i as int].wf());
                }
                let r = self.caches[i].get(key, now);
                proof {
                    assert(self.caches() =~= old(self).caches().update(i as int, self.caches()[i as int]));
                    Self::lemma_update_keeps_wf(old(self).caches(), i as int, self.caches()[i as int], self.caches());
                    assert(changes_only(old(self).caches(), name@, i as int, self.caches()));
                }
                Ok(r)
            },
            None => Err(RegistryError::UnknownCache),
        }
    }

    /// Stores `value` under `key` in the cache `name` at `now`.
    pub fn put(&mut self, name: &str, key: i64, value: V, now: u64) -> (r: Result<(), RegistryError>)
        requires
            old(self).wf(),
        ensures
            final(self).wf(),
            same_names(old(self).caches(), final(self).caches()),
            match r {
                Ok(()) => exists|i: int|
                    #[trigger] changes_only(old(self).caches(), name@, i, final(self).caches())
                        && put_post(old(self).caches()[i].policy(), old(self).caches()[i].entries(), key, value, now, final(self).caches()[i].entries())
                        && final(self).caches()[i].pending() == old(self).caches()[i].pending()
                        && final(self).caches()[i].ticket() == old(self).caches()[i].ticket()
                        && final(self).caches()[i].policy() == old(self).caches()[i].policy(),
                Err(e) => e == RegistryError::UnknownCache && !names_cache(old(self).caches(), name@)
                    && final(self).caches() == old(self).caches(),
            },
    {
        match self.find(name) {
            Some(i) => {
                proof {
                    assert(self.caches()[i as int].wf());
                }
                self.caches[i].put(key, value, now);
                proof {
                    assert(self.caches() =~= old(self).caches().update(i as int, self.caches()[i as int]));
                    Self::lemma_update_keeps_wf(old(self).caches(), i as int, self.caches()[i as int], self.caches());
                    assert(changes_only(old(self).caches(), name@, i as int, self.caches()));
                }
                Ok(())
            },
            None => Err(RegistryError::UnknownCache),
        }
    }

    /// A caller asks the cache `name` for `key` at `now`, offering `slot` in
    /// case it has to lead the load.
    pub fn begin_load(&mut self, name: &str, key: i64, now: u64, slot: W) -> (r: Result<LoadStep<V, W>, RegistryError>)
        where
            V: Clone,
            W: Clone,
        requires
            old(self).wf(),
        ensures
            final(self).wf(),
            same_names(old(self).caches(), final(self).caches()),
            match r {
                Ok(step) => exists|i: int|
                    #[trigger] changes_only(old(self).caches(), name@, i, final(self).caches())
                        && begin_post(old(self).caches()[i], key, now, slot, step, final(self).caches()[i]),
                Err(e) => e == RegistryError::UnknownCache && !names_cache(old(self).caches(), name@)
                    && final(self).caches() == old(self).caches(),
            },
    {
        match self.find(name) {
            Some(i) => {
                proof {
                    assert(self.caches()[i as int].wf());
                }
                let r = self.caches[i].begin(key, now, slot);
                proof {
                    assert(self.caches() =~= old(self).caches().update(i as int, self.caches()[i as int]));
                    Self::lemma_update_keeps_wf(old(self).caches(), i as int, self.caches()[i as int], self.caches());
                    assert(changes_only(old(self).caches(), name@, i as int, self.caches()));
                }
                Ok(r)
            },
            None => Err(RegistryError::UnknownCache),
        }
    }

    /// The leader of the load of `key` in the cache `name` reports its
    /// outcome; the result says whether that load was still registered.
    pub fn complete_load(&mut self, name: &str, key: i64, ticket: u64, outcome: Option<V>, now: u64) -> (r: Result<bool, RegistryError>)
        requires
            old(self).wf(),
        ensures
            final(self).wf(),
            same_names(old(self).caches(), final(self).caches()),
            match r {
                Ok(accepted) => exists|i: int|
                    #[trigger] changes_only(old(self).caches(), name@, i, final(self).caches())
                        && complete_post(old(self).caches()[i], key, ticket, outcome, now, accepted, final(self).caches()[i]),
                Err(e) => e == RegistryError::UnknownCache && !names_cache(old(self).caches(), name@)
                    && final(self).caches() == old(self).caches(),
            },
    {
        match self.find(name) {
            Some(i) => {
                proof {
                    assert(self.caches()[i as int].wf());
                }
                let r = self.caches[i].complete(key, ticket, outcome, now);
                proof {
                    assert(self.caches() =~= old(self).caches().update(i as int, self.caches()[i as int]));
                    Self::lemma_update_keeps_wf(old(self).caches(), i as int, self.caches()[i as int], self.caches());
                    assert(changes_only(old(self).caches(), name@, i as int, self.caches()));
                }
                Ok(r)
            },
            None => Err(RegistryError::UnknownCache),
        }
    }

    /// Drops `key` from the cache `name` once the write that made it stale
    /// has committed. Dropping a key that is not there is no error.
    pub fn invalidate_after_commit(&mut self, name: &str, key: i64) -> (r: Result<(), RegistryError>)
        requires
            old(self).wf(),
        ensures
            final(self).wf(),
            same_names(old(self).caches(), final(self).caches()),
            match r {
                Ok(()) => exists|i: int|
                    #[trigger] changes_only(old(self).caches(), name@, i, final(self).caches())
                        && invalidate_post(old(self).caches()[i], key, final(self).caches()[i]),
                Err(e) => e == RegistryError::UnknownCache && !names_cache(old(self).caches(), name@)
                    && final(self).caches() == old(self).caches(),
            },
    {
        match self.find(name) {
            Some(i) => {
                proof {
                    assert(self.caches()[i as int].wf());
                }
                self.caches[i].invalidate(key);
                proof {
                    assert(self.caches() =~= old(self).caches().update(i as int, self.caches()[i as int]));
                    Self::lemma_update_keeps_wf(old(self).caches(), i as int, self.caches()[i as int], self.caches());
                    assert(changes_only(old(self).caches(), name@, i as int, self.caches()));
                }
                Ok(())
            },
            None => Err(RegistryError::UnknownCache),
        }
    }
}


/// Invalidation is scoped: invalidating one key of one cache leaves every
/// other cache whole, and every other key of that cache as it was.
pub proof fn lemma_invalidation_scoped<V, W>(
    reg: Registry<V, W>,
    name: Seq<char>,
    key: i64,
    reg2: Registry<V, W>,
    j: int,
    other: i64,
)
    requires
        reg.wf(),
        exists|i: int| #[trigger] changes_only(reg.caches(), name, i, reg2.caches()) && invalidate_post(reg.caches()[i], key, reg2.caches()[i]),
        0 <= j < reg.caches().len(),
        reg.caches()[j].name() != name || other != key,
    ensures
        reg2.caches()[j].entries().contains_key(other) == reg.caches()[j].entries().contains_key(other),
        reg.caches()[j].entries().contains_key(other) ==> reg2.caches()[j].entries()[other] == reg.caches()[j].entries()[other],
        reg.caches()[j].name() != name ==> reg2.caches()[j] == reg.caches()[j],
{
    let i = choose|i: int| #[trigger] changes_only(reg.caches(), name, i, reg2.caches()) && invalidate_post(reg.caches()[i], key, reg2.caches()[i]);
    if j != i {
        assert(reg2.caches()[j] == reg.caches()[j]);
    } else {
        crate::flight::lemma_invalidation_scoped(reg.caches()[i], key, reg2.caches()[i], other);
    }
}

} // verus!
