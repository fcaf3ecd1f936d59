//! The caches and the retention task of the market service, as configured at
//! startup.
use vstd::prelude::*;
use crate::registry::Registry;
use crate::store::{CachePolicy, Entry, Eviction, Expiration};
use crate::flight::PendingLoad;
use crate::sweeper::RetentionTask;

verus! {

/// Listings by item id.
pub const ITEM_LISTINGS_CACHE: &'static str = "item_listings_cache";

/// The first page of purchases by item id.
pub const ITEM_PURCHASE_CACHE: &'static str = "item_purchase_cache";

/// The global statistics, a single entry.
pub const STATS_CACHE: &'static str = "stats_cache";

/// The one key of the statistics cache.
pub const STATS_KEY: i64 = 0;

/// Item entries stay while read at least every six hours; writes invalidate them.
pub const ITEM_IDLE_MS: u64 = 21_600_000;

/// The statistics are recomputed five minutes after they were stored.
pub const STATS_TTL_MS: u64 = 300_000;

/// The item caches' capacity when none is configured.
pub const DEFAULT_ITEMS_CAPACITY: usize = 5000;

/// Old purchase rows are pruned every thirty minutes.
pub const RETENTION_INTERVAL_SECS: u64 = 1800;

/// Purchases older than one calendar month are pruned.
pub const RETENTION_MONTHS: u32 = 1;

/// The policy of the two item caches.
pub open spec fn item_policy(capacity: usize) -> CachePolicy {
    CachePolicy {
        capacity,
        expiration: Expiration::TimeToIdle(ITEM_IDLE_MS),
        eviction: Eviction::LeastRecentlyUsed,
    }
}

/// The policy of the statistics cache.
pub open spec fn stats_policy() -> CachePolicy {
    CachePolicy { capacity: 1, expiration: Expiration::TimeToLive(STATS_TTL_MS), eviction: Eviction::LeastRecentlyInserted }
}

/// The service's three caches, empty: item listings and item purchases with
/// `items_capacity` entries each, then the statistics.
pub fn service_registry<V, W>(items_capacity: usize) -> (r: Registry<V, W>)
    ensures
        r.wf(),
        r.caches().len() == 3,
        r.caches()[0].name() == ITEM_LISTINGS_CACHE@,
        r.caches()[0].policy() == item_policy(items_capacity),
        r.caches()[1].name() == ITEM_PURCHASE_CACHE@,
        r.caches()[1].policy() == item_policy(items_capacity),
        r.caches()[2].name() == STATS_CACHE@,
        r.caches()[2].policy() == stats_policy(),
        forall|i: int|
            0 <= i < 3 ==> #[trigger] r.caches()[i].entries() == Map::<i64, Entry<V>>::empty()
                && r.caches()[i].pending() == Map::<i64, PendingLoad<W>>::empty(),
{
    proof {
        reveal_strlit("item_listings_cache");
        reveal_strlit("item_purchase_cache");
        reveal_strlit("stats_cache");
    }
    let item = CachePolicy {
        capacity: items_capacity,
        expiration: Expiration::TimeToIdle(ITEM_IDLE_MS),
        eviction: Eviction::LeastRecentlyUsed,
    };
    let stats = CachePolicy {
        capacity: 1,
        expiration: Expiration::TimeToLive(STATS_TTL_MS),
        eviction: Eviction::LeastRecentlyInserted,
    };
    assert(ITEM_LISTINGS_CACHE@[5] != ITEM_PURCHASE_CACHE@[5]);
    assert(ITEM_LISTINGS_CACHE@.len() != STATS_CACHE@.len());
    assert(ITEM_PURCHASE_CACHE@.len() != STATS_CACHE@.len());
    let mut r: Registry<V, W> = Registry::new();
    let a = r.register(String::from_str(ITEM_LISTINGS_CACHE), item);
    assert(a is Ok);
    let b = r.register(String::from_str(ITEM_PURCHASE_CACHE), item);
    assert(b is Ok);
    let c = r.register(String::from_str(STATS_CACHE), stats);
    assert(c is Ok);
    r
}

/// The retention task: every thirty minutes, delete purchases older than one
/// calendar month.
pub fn retention_task() -> (r: RetentionTask)
    ensures
        r == (RetentionTask { interval_secs: RETENTION_INTERVAL_SECS, retention_months: RETENTION_MONTHS }),
{
    RetentionTask { interval_secs: RETENTION_INTERVAL_SECS, retention_months: RETENTION_MONTHS }
}

} // verus!
