//! The global statistics and the cache statistics the service reports.
use vstd::prelude::*;
use crate::registry::{Registry, names_cache};
use crate::service::{ITEM_LISTINGS_CACHE, ITEM_PURCHASE_CACHE, STATS_CACHE};

verus! {

/// A count for one UTC day; the day is given as days since 1970-01-01.
#[derive(Clone, Copy, Debug, PartialEq, Eq, Structural)]
pub struct DayCount {
    pub count: Option<i64>,
    pub day: Option<i32>,
}

/// The global statistics snapshot.
pub struct Stats {
    pub total_uploads: i64,
    pub active_listings: i64,
    pub total_purchases: i64,
    pub unique_uploaders: i64,
    pub unique_items: i64,
    /// Oldest day first.
    pub uploads_per_day: Vec<DayCount>,
    /// Oldest day first.
    pub purchase_by_day: Vec<DayCount>,
}

/// The stored-entry count of each of the service's caches.
#[derive(Clone, Copy, Debug, PartialEq, Eq, Structural)]
pub struct CacheStats {
    pub stats_cache_entry_count: u64,
    pub item_listings_entry_count: u64,
    pub item_purchase_entry_count: u64,
}

/// A count the store may leave empty, read as 0.
pub open spec fn count_or_zero(c: Option<i64>) -> i64 {
    match c {
        Some(n) => n,
        None => 0,
    }
}

/// `r` holds the days of `v` in the opposite order.
pub open spec fn reversed_days(v: Seq<DayCount>, r: Seq<DayCount>) -> bool {
    &&& r.len() == v.len()
    &&& forall|i: int| 0 <= i < r.len() ==> #[trigger] r[i] == v[v.len() - 1 - i]
}

fn reverse_days(v: Vec<DayCount>) -> (r: Vec<DayCount>)
    ensures
        reversed_days(v@, r@),
{
    let mut v = v;
    let ghost orig = v@;
    let mut r: Vec<DayCount> = Vec::new();
    while v.len() > 0
        invariant
            v@.len() + r@.len() == orig.len(),
            v@ == orig.take(v@.len() as int),
            forall|i: int| 0 <= i < r@.len() ==> #[trigger] r@[i] == orig[orig.len() - 1 - i],
        decreases v@.len(),
    {
        let ghost before = v@;
        let d = v.pop().unwrap();
        proof {
            assert(d == orig[before.len() - 1]);
            assert(v@ =~= orig.take(v@.len() as int));
        }
        r.push(d);
    }
    r
}

fn or_zero(c: Option<i64>) -> (r: i64)
    ensures
        r == count_or_zero(c),
{
    match c {
        Some(n) => n,
        None => 0,
    }
}

impl Stats {
    /// Builds the snapshot from what the store returned: missing counts read
    /// as 0, and the per-day counts, which come newest day first, are turned
    /// to oldest day first.
    pub fn assemble(
        total_uploads: Option<i64>,
        active_listings: Option<i64>,
        total_purchases: Option<i64>,
        unique_uploaders: Option<i64>,
        unique_items: Option<i64>,
        uploads_per_day: Vec<DayCount>,
        purchase_by_day: Vec<DayCount>,
    ) -> (r: Stats)
        ensures
            r.total_uploads == count_or_zero(total_uploads),
            r.active_listings == count_or_zero(active_listings),
            r.total_purchases == count_or_zero(total_purchases),
            r.unique_uploaders == count_or_zero(unique_uploaders),
            r.unique_items == count_or_zero(unique_items),
            reversed_days(uploads_per_day@, r.uploads_per_day@),
            reversed_days(purchase_by_day@, r.purchase_by_day@),
    {
        Stats {
            total_uploads: or_zero(total_uploads),
            active_listings: or_zero(active_listings),
            total_purchases: or_zero(total_purchases),
            unique_uploaders: or_zero(unique_uploaders),
            unique_items: or_zero(unique_items),
            uploads_per_day: reverse_days(uploads_per_day),
            purchase_by_day: reverse_days(purchase_by_day),
        }
    }
}

/// `n` is the stored-entry count of the cache `name` of `reg`, or 0 where no
/// cache has that name.
pub open spec fn count_of<V, W>(reg: Registry<V, W>, name: Seq<char>, n: u64) -> bool {
    if names_cache(reg.caches(), name) {
        exists|i: int|
            0 <= i < reg.caches().len() && #[trigger] reg.caches()[i].name() == name && n
                == reg.caches()[i].entries().dom().len()
    } else {
        n == 0
    }
}

impl CacheStats {
    /// The entry counts of the service's caches in `reg`.
    pub fn of<V, W>(reg: &Registry<V, W>) -> (r: CacheStats)
        requires
            reg.wf(),
        ensures
            count_of(*reg, STATS_CACHE@, r.stats_cache_entry_count),
            count_of(*reg, ITEM_LISTINGS_CACHE@, r.item_listings_entry_count),
            count_of(*reg, ITEM_PURCHASE_CACHE@, r.item_purchase_entry_count),
    {
        let stats = match reg.entry_count(STATS_CACHE) {
            Ok(n) => n,
            Err(_) => 0,
        };
        let listings = match reg.entry_count(ITEM_LISTINGS_CACHE) {
            Ok(n) => n,
            Err(_) => 0,
        };
        let purchases = match reg.entry_count(ITEM_PURCHASE_CACHE) {
            Ok(n) => n,
            Err(_) => 0,
        };
        CacheStats {
            stats_cache_entry_count: stats,
            item_listings_entry_count: listings,
            item_purchase_entry_count: purchases,
        }
    }
}

} // verus!
