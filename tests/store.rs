use xivhub_market::store::{CachePolicy, CacheStore, Eviction, Expiration};

fn policy(capacity: usize, expiration: Expiration, eviction: Eviction) -> CachePolicy {
    CachePolicy { capacity, expiration, eviction }
}

#[test]
fn get_after_put_hits() {
    let mut s: CacheStore<String> =
        CacheStore::new(policy(4, Expiration::TimeToLive(100), Eviction::LeastRecentlyInserted));
    assert_eq!(s.get(1, 0), None);
    s.put(1, "one".to_string(), 0);
    assert_eq!(s.get(1, 10), Some("one".to_string()));
    assert_eq!(s.get(2, 10), None);
    assert_eq!(s.entry_count(), 1);
}

#[test]
fn ttl_entry_expires_despite_reads() {
    let mut s: CacheStore<i32> =
        CacheStore::new(policy(4, Expiration::TimeToLive(100), Eviction::LeastRecentlyInserted));
    s.put(7, 70, 1000);
    assert_eq!(s.get(7, 1050), Some(70));
    assert_eq!(s.get(7, 1099), Some(70));
    assert_eq!(s.get(7, 1100), None);
    assert_eq!(s.get(7, 1101), None);
    assert_eq!(s.entry_count(), 0);
}

#[test]
fn tti_entry_deadline_moves_on_each_read() {
    let mut s: CacheStore<i32> =
        CacheStore::new(policy(4, Expiration::TimeToIdle(100), Eviction::LeastRecentlyUsed));
    s.put(3, 30, 0);
    assert_eq!(s.get(3, 99), Some(30));
    assert_eq!(s.get(3, 198), Some(30));
    assert_eq!(s.get(3, 297), Some(30));
    assert_eq!(s.get(3, 397), None);
}

#[test]
fn tti_entry_untouched_expires_at_deadline() {
    let mut s: CacheStore<i32> =
        CacheStore::new(policy(4, Expiration::TimeToIdle(100), Eviction::LeastRecentlyUsed));
    s.put(3, 30, 50);
    assert_eq!(s.get(3, 150), None);
}

#[test]
fn expired_entry_still_counted_until_read() {
    let mut s: CacheStore<i32> =
        CacheStore::new(policy(4, Expiration::TimeToLive(10), Eviction::LeastRecentlyInserted));
    s.put(1, 1, 0);
    s.put(2, 2, 0);
    assert_eq!(s.entry_count(), 2);
    assert_eq!(s.get(1, 50), None);
    assert_eq!(s.entry_count(), 1);
}

#[test]
fn capacity_never_exceeded() {
    let mut s: CacheStore<i64> =
        CacheStore::new(policy(3, Expiration::TimeToIdle(1_000_000), Eviction::LeastRecentlyUsed));
    for k in 0..10i64 {
        s.put(k, k * 10, k as u64);
        assert!(s.entry_count() <= 3);
    }
    assert_eq!(s.entry_count(), 3);
    assert_eq!(s.get(9, 20), Some(90));
    assert_eq!(s.get(8, 20), Some(80));
    assert_eq!(s.get(7, 20), Some(70));
    assert_eq!(s.get(6, 20), None);
}

#[test]
fn lru_evicts_least_recently_read() {
    let mut s: CacheStore<i32> =
        CacheStore::new(policy(2, Expiration::TimeToIdle(1_000), Eviction::LeastRecentlyUsed));
    s.put(1, 10, 0);
    s.put(2, 20, 1);
    assert_eq!(s.get(1, 2), Some(10));
    s.put(3, 30, 3);
    assert_eq!(s.get(2, 4), None);
    assert_eq!(s.get(1, 4), Some(10));
    assert_eq!(s.get(3, 4), Some(30));
}

#[test]
fn lri_evicts_oldest_insert_even_if_read() {
    let mut s: CacheStore<i32> =
        CacheStore::new(policy(2, Expiration::TimeToLive(1_000), Eviction::LeastRecentlyInserted));
    s.put(1, 10, 0);
    s.put(2, 20, 1);
    assert_eq!(s.get(1, 2), Some(10));
    s.put(3, 30, 3);
    assert_eq!(s.get(1, 4), None);
    assert_eq!(s.get(2, 4), Some(20));
    assert_eq!(s.get(3, 4), Some(30));
}

#[test]
fn eviction_ties_go_to_smaller_key() {
    let mut s: CacheStore<i32> =
        CacheStore::new(policy(2, Expiration::TimeToLive(1_000), Eviction::LeastRecentlyInserted));
    s.put(9, 90, 5);
    s.put(4, 40, 5);
    s.put(6, 60, 6);
    assert_eq!(s.get(4, 7), None);
    assert_eq!(s.get(9, 7), Some(90));
    assert_eq!(s.get(6, 7), Some(60));
}

#[test]
fn put_replaces_without_eviction() {
    let mut s: CacheStore<i32> =
        CacheStore::new(policy(2, Expiration::TimeToLive(100), Eviction::LeastRecentlyInserted));
    s.put(1, 10, 0);
    s.put(2, 20, 0);
    s.put(1, 11, 50);
    assert_eq!(s.entry_count(), 2);
    assert_eq!(s.get(1, 120), Some(11));
    assert_eq!(s.get(2, 60), Some(20));
}

#[test]
fn zero_capacity_stores_nothing() {
    let mut s: CacheStore<i32> =
        CacheStore::new(policy(0, Expiration::TimeToLive(100), Eviction::LeastRecentlyInserted));
    s.put(1, 10, 0);
    assert_eq!(s.entry_count(), 0);
    assert_eq!(s.get(1, 1), None);
}

#[test]
fn invalidate_absent_key_is_noop() {
    let mut s: CacheStore<i32> =
        CacheStore::new(policy(2, Expiration::TimeToLive(100), Eviction::LeastRecentlyInserted));
    s.put(1, 10, 0);
    s.invalidate(2);
    assert_eq!(s.entry_count(), 1);
    s.invalidate(1);
    assert_eq!(s.entry_count(), 0);
    assert_eq!(s.get(1, 1), None);
    s.invalidate(1);
    assert_eq!(s.entry_count(), 0);
}

#[test]
fn configured_policy_is_kept() {
    let p = policy(2, Expiration::TimeToIdle(5), Eviction::LeastRecentlyUsed);
    let s: CacheStore<i32> = CacheStore::new(p);
    assert_eq!(s.configured(), p);
}
