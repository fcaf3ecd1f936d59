//! A small keyed table: one item per integer key, kept in insertion slots.
use vstd::prelude::*;

verus! {

/// Items keyed by `i64`, at most one item per key. The table is viewed as a
/// finite map from keys to items; its slots give the keys an order that the
/// eviction scan walks through.
pub struct Table<T> {
    keys: Vec<i64>,
    items: Vec<T>,
    contents: Ghost<Map<i64, T>>,
}

impl<T> Table<T> {
    /// The keys, slot by slot.
    pub closed spec fn key_seq(&self) -> Seq<i64> {
        self.keys@
    }

    /// The items, slot by slot.
    pub closed spec fn item_seq(&self) -> Seq<T> {
        self.items@
    }

    /// What the table holds.
    pub closed spec fn view(&self) -> Map<i64, T> {
        self.contents@
    }

    /// The slots and the map agree: each slot holds one key of the map with
    /// its item, and no key has two slots.
    pub open spec fn wf(&self) -> bool {
        let ks = self.key_seq();
        let its = self.item_seq();
        let m = self.view();
        &&& ks.len() == its.len()
        &&& m.dom().finite()
        &&& m.dom().len() == ks.len()
        &&& forall|i: int| 0 <= i < ks.len() ==> #[trigger] m.contains_key(ks[i]) && m[ks[i]] == its[i]
        &&& forall|i: int, j: int| 0 <= i < ks.len() && 0 <= j < ks.len() && i != j ==> ks[i] != ks[j]
        &&& forall|k: i64| #[trigger] m.contains_key(k) ==> exists|i: int| 0 <= i < ks.len() && ks[i] == k
    }

    pub fn new() -> (r: Self)
        ensures
            r.wf(),
            r.view() == Map::<i64, T>::empty(),
    {
        Table { keys: Vec::new(), items: Vec::new(), contents: Ghost(Map::empty()) }
    }

    pub fn len(&self) -> (r: usize)
        requires
            self.wf(),
        ensures
            r == self.view().dom().len(),
            r == self.key_seq().len(),
    {
        self.keys.len()
    }

    /// The slot of `key`, if the table holds it.
    pub fn position(&self, key: i64) -> (r: Option<usize>)
        requires
            self.wf(),
        ensures
            match r {
                Some(i) => i < self.key_seq().len() && self.key_seq()[i as int] == key,
                None => !self.view().contains_key(key),
            },
    {
        let mut i: usize = 0;
        while i < self.keys.len()
            invariant
                self.wf(),
                i <= self.keys@.len(),
                forall|j: int| 0 <= j < i ==> self.keys@[j] != key,
            decreases self.keys@.len() - i,
        {
            if self.keys[i] == key {
                return Some(i);
            }
            i = i + 1;
        }
        None
    }

    pub fn key_at(&self, i: usize) -> (r: i64)
        requires
            self.wf(),
            i < self.key_seq().len(),
        ensures
            r == self.key_seq()[i as int],
    {
        self.keys[i]
    }

    pub fn item_at(&self, i: usize) -> (r: &T)
        requires
            self.wf(),
            i < self.key_seq().len(),
        ensures
            *r == self.item_seq()[i as int],
            *r == self.view()[self.key_seq()[i as int]],
    {
        assert(self.view().contains_key(self.key_seq()[i as int]));
        &self.items[i]
    }

    /// Adds `item` under a key that the table does not hold.
    pub fn push_new(&mut self, key: i64, item: T)
        requires
            old(self).wf(),
            !old(self).view().contains_key(key),
            old(self).key_seq().len() < usize::MAX,
        ensures
            final(self).wf(),
            final(self).view() == old(self).view().insert(key, item),
    {
        let ghost old_keys = self.keys@;
        self.keys.push(key);
        self.items.push(item);
        self.contents = Ghost(self.contents@.insert(key, item));
        proof {
            let ks = self.keys@;
            let m = self.contents@;
            assert(ks.len() == old_keys.len() + 1);
            assert forall|i: int| 0 <= i < ks.len() implies #[trigger] m.contains_key(ks[i]) && m[ks[i]]
                == self.items@[i] by {
                if i < old_keys.len() {
                    assert(ks[i] == old_keys[i]);
                    assert(ks[i] != key);
                }
            }
            assert forall|k: i64| #[trigger] m.contains_key(k) implies exists|i: int|
                0 <= i < ks.len() && ks[i] == k by {
                if k == key {
                    assert(ks[ks.len() - 1] == k);
                } else {
                    let i = choose|i: int| 0 <= i < old_keys.len() && old_keys[i] == k;
                    assert(ks[i] == k);
                }
            }
        }
    }

    /// Replaces the item in slot `i`, under the same key.
    pub fn set_at(&mut self, i: usize, item: T)
        requires
            old(self).wf(),
            i < old(self).key_seq().len(),
        ensures
            final(self).wf(),
            final(self).key_seq() == old(self).key_seq(),
            final(self).view() == old(self).view().insert(old(self).key_seq()[i as int], item),
    {
        let ghost key = self.keys@[i as int];
        self.items.set(i, item);
        self.contents = Ghost(self.contents@.insert(key, item));
        proof {
            let ks = self.keys@;
            let m = self.contents@;
            assert forall|j: int| 0 <= j < ks.len() implies #[trigger] m.contains_key(ks[j]) && m[ks[j]]
                == self.items@[j] by {
                if j != i {
                    assert(ks[j] != key);
                    assert(old(self).view().contains_key(ks[j]));
                }
            }
            assert(m.dom() =~= old(self).view().dom());
        }
    }

    /// Takes the item out of slot `i`, and its key out of the table.
    pub fn remove_at(&mut self, i: usize) -> (r: T)
        requires
            old(self).wf(),
            i < old(self).key_seq().len(),
        ensures
            final(self).wf(),
            r == old(self).item_seq()[i as int],
            final(self).view() == old(self).view().remove(old(self).key_seq()[i as int]),
    {
        let ghost old_keys = self.keys@;
        let ghost old_items = self.items@;
        let key = self.keys.remove(i);
        let r = self.items.remove(i);
        self.contents = Ghost(self.contents@.remove(key));
        proof {
            let ks = self.keys@;
            let m = self.contents@;
            assert(ks =~= old_keys.remove(i as int));
            assert(self.items@ =~= old_items.remove(i as int));
            assert forall|j: int| 0 <= j < ks.len() implies #[trigger] m.contains_key(ks[j]) && m[ks[j]]
                == self.items@[j] by {
                if j < i {
                    assert(ks[j] == old_keys[j]);
                    assert(old_keys[j] != key);
                    assert(old(self).view().contains_key(old_keys[j]));
                } else {
                    assert(ks[j] == old_keys[j + 1]);
                    assert(old_keys[j + 1] != key);
                    assert(old(self).view().contains_key(old_keys[j + 1]));
                }
            }
            assert forall|a: int, b: int| 0 <= a < ks.len() && 0 <= b < ks.len() && a != b implies ks[a]
                != ks[b] by {
                let oa = if a < i { a } else { a + 1 };
                let ob = if b < i { b } else { b + 1 };
                assert(ks[a] == old_keys[oa]);
                assert(ks[b] == old_keys[ob]);
            }
            assert forall|k: i64| #[trigger] m.contains_key(k) implies exists|j: int|
                0 <= j < ks.len() && ks[j] == k by {
                assert(old(self).view().contains_key(k));
                let j = choose|j: int| 0 <= j < old_keys.len() && old_keys[j] == k;
                assert(j != i);
                if j < i {
                    assert(ks[j] == k);
                } else {
                    assert(ks[j - 1] == k);
                }
            }
            assert(old(self).view().contains_key(key));
        }
        r
    }
}

} // verus!
