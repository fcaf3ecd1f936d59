use xivhub_market::flight::{LoadStep, NamedCache};
use xivhub_market::registry::{Registry, RegistryError};
use xivhub_market::service::{
    service_registry, DEFAULT_ITEMS_CAPACITY, ITEM_IDLE_MS, ITEM_LISTINGS_CACHE, ITEM_PURCHASE_CACHE,
    STATS_CACHE, STATS_KEY, STATS_TTL_MS,
};
use xivhub_market::stats::CacheStats;
use xivhub_market::store::{CachePolicy, Eviction, Expiration};

fn item_policy() -> CachePolicy {
    CachePolicy { capacity: 10, expiration: Expiration::TimeToIdle(1_000), eviction: Eviction::LeastRecentlyUsed }
}

fn lead_ticket(step: LoadStep<String, u32>) -> u64 {
    match step {
        LoadStep::Lead(t) => t,
        LoadStep::Hit(v) => panic!("unexpected hit {v}"),
        LoadStep::Join(w) => panic!("unexpected join {w}"),
    }
}

#[test]
fn concurrent_misses_share_one_load() {
    let mut c: NamedCache<String, u32> = NamedCache::new("listings".to_string(), item_policy());
    let ticket = lead_ticket(c.begin(5, 0, 100));
    let mut loads = 1;
    let mut joined = Vec::new();
    for i in 0..4u32 {
        match c.begin(5, 1, 200 + i) {
            LoadStep::Join(slot) => joined.push(slot),
            LoadStep::Lead(_) => loads += 1,
            LoadStep::Hit(_) => panic!("no value yet"),
        }
    }
    assert_eq!(loads, 1);
    assert_eq!(joined, vec![100, 100, 100, 100]);
    assert!(c.complete(5, ticket, Some("bundle".to_string()), 2));
    match c.begin(5, 3, 300) {
        LoadStep::Hit(v) => assert_eq!(v, "bundle"),
        _ => panic!("the loaded value is cached"),
    }
    assert_eq!(c.entry_count(), 1);
}

#[test]
fn failed_load_is_not_cached() {
    let mut c: NamedCache<String, u32> = NamedCache::new("listings".to_string(), item_policy());
    let t1 = lead_ticket(c.begin(5, 0, 1));
    assert!(matches!(c.begin(5, 0, 2), LoadStep::Join(1)));
    assert!(c.complete(5, t1, None, 1));
    assert_eq!(c.entry_count(), 0);
    let t2 = lead_ticket(c.begin(5, 2, 3));
    assert_ne!(t1, t2);
}

#[test]
fn invalidation_forces_fresh_load() {
    let mut c: NamedCache<String, u32> = NamedCache::new("listings".to_string(), item_policy());
    let t = lead_ticket(c.begin(5, 0, 1));
    assert!(c.complete(5, t, Some("old".to_string()), 0));
    assert!(matches!(c.begin(5, 1, 2), LoadStep::Hit(_)));
    c.invalidate(5);
    let t2 = lead_ticket(c.begin(5, 2, 3));
    assert!(c.complete(5, t2, Some("new".to_string()), 3));
    match c.get(5, 4) {
        Some(v) => assert_eq!(v, "new"),
        None => panic!("fresh value cached"),
    }
}

#[test]
fn load_begun_before_invalidation_is_not_cached() {
    let mut c: NamedCache<String, u32> = NamedCache::new("listings".to_string(), item_policy());
    let stale = lead_ticket(c.begin(5, 0, 1));
    c.invalidate(5);
    let fresh = lead_ticket(c.begin(5, 1, 2));
    assert!(!c.complete(5, stale, Some("stale".to_string()), 2));
    assert_eq!(c.entry_count(), 0);
    assert!(matches!(c.begin(5, 2, 3), LoadStep::Join(2)));
    assert!(c.complete(5, fresh, Some("fresh".to_string()), 3));
    assert_eq!(c.get(5, 4), Some("fresh".to_string()));
}

#[test]
fn invalidation_keeps_other_keys() {
    let mut c: NamedCache<String, u32> = NamedCache::new("listings".to_string(), item_policy());
    c.put(1, "a".to_string(), 0);
    c.put(2, "b".to_string(), 0);
    c.invalidate(1);
    assert_eq!(c.get(1, 1), None);
    assert_eq!(c.get(2, 1), Some("b".to_string()));
}

#[test]
fn registry_unknown_cache() {
    let mut r: Registry<String, u32> = Registry::new();
    assert_eq!(r.register("a".to_string(), item_policy()), Ok(()));
    assert!(matches!(r.begin_load("b", 1, 0, 1), Err(RegistryError::UnknownCache)));
    assert_eq!(r.invalidate_after_commit("b", 1), Err(RegistryError::UnknownCache));
    assert_eq!(r.entry_count("b"), Err(RegistryError::UnknownCache));
    assert_eq!(r.put("b", 1, "x".to_string(), 0), Err(RegistryError::UnknownCache));
    assert_eq!(r.get("b", 1, 0), Err(RegistryError::UnknownCache));
    assert_eq!(r.complete_load("b", 1, 0, None, 0), Err(RegistryError::UnknownCache));
}

#[test]
fn registry_duplicate_name() {
    let mut r: Registry<String, u32> = Registry::new();
    assert_eq!(r.register("a".to_string(), item_policy()), Ok(()));
    assert_eq!(r.register("a".to_string(), item_policy()), Err(RegistryError::DuplicateName));
    assert_eq!(r.stats().len(), 1);
}

#[test]
fn registry_scoped_invalidation() {
    let mut r: Registry<String, u32> = Registry::new();
    r.register("listings".to_string(), item_policy()).unwrap();
    r.register("purchases".to_string(), item_policy()).unwrap();
    r.put("listings", 5, "l5".to_string(), 0).unwrap();
    r.put("listings", 6, "l6".to_string(), 0).unwrap();
    r.put("purchases", 5, "p5".to_string(), 0).unwrap();
    assert_eq!(r.invalidate_after_commit("listings", 5), Ok(()));
    assert_eq!(r.invalidate_after_commit("listings", 5), Ok(()));
    assert_eq!(r.get("listings", 5, 1), Ok(None));
    assert_eq!(r.get("listings", 6, 1), Ok(Some("l6".to_string())));
    assert_eq!(r.get("purchases", 5, 1), Ok(Some("p5".to_string())));
}

#[test]
fn registry_invalidate_then_load() {
    let mut r: Registry<String, u32> = Registry::new();
    r.register("listings".to_string(), item_policy()).unwrap();
    let t = match r.begin_load("listings", 5, 0, 1) {
        Ok(LoadStep::Lead(t)) => t,
        _ => panic!("first caller leads"),
    };
    assert_eq!(r.complete_load("listings", 5, t, Some("before".to_string()), 0), Ok(true));
    assert!(matches!(r.begin_load("listings", 5, 1, 2), Ok(LoadStep::Hit(_))));
    r.invalidate_after_commit("listings", 5).unwrap();
    assert!(matches!(r.begin_load("listings", 5, 2, 3), Ok(LoadStep::Lead(_))));
}

#[test]
fn registry_stats_read_only() {
    let mut r: Registry<String, u32> = Registry::new();
    r.register("a".to_string(), item_policy()).unwrap();
    r.register("b".to_string(), item_policy()).unwrap();
    r.put("a", 1, "x".to_string(), 0).unwrap();
    r.put("a", 2, "y".to_string(), 0).unwrap();
    let s1 = r.stats();
    let s2 = r.stats();
    assert_eq!(s1.len(), 2);
    assert_eq!(s1[0].name, "a");
    assert_eq!(s1[0].entries, 2);
    assert_eq!(s1[1].name, "b");
    assert_eq!(s1[1].entries, 0);
    assert_eq!(s2[0].entries, 2);
    assert_eq!(r.entry_count("a"), Ok(2));
}

#[test]
fn service_caches_configured() {
    let mut r: Registry<String, u32> = service_registry(DEFAULT_ITEMS_CAPACITY);
    let names: Vec<String> = r.stats().into_iter().map(|c| c.name).collect();
    assert_eq!(names, vec!["item_listings_cache", "item_purchase_cache", "stats_cache"]);
    assert_eq!(ITEM_IDLE_MS, 6 * 60 * 60 * 1000);
    assert_eq!(STATS_TTL_MS, 5 * 60 * 1000);
    r.put(STATS_CACHE, STATS_KEY, "s1".to_string(), 0).unwrap();
    r.put(STATS_CACHE, STATS_KEY, "s2".to_string(), 10).unwrap();
    assert_eq!(r.entry_count(STATS_CACHE), Ok(1));
    assert_eq!(r.get(STATS_CACHE, STATS_KEY, STATS_TTL_MS + 10), Ok(None));
    r.put(ITEM_LISTINGS_CACHE, 1, "l".to_string(), 0).unwrap();
    assert_eq!(r.get(ITEM_LISTINGS_CACHE, 1, ITEM_IDLE_MS - 1), Ok(Some("l".to_string())));
    r.put(ITEM_PURCHASE_CACHE, 1, "p".to_string(), 0).unwrap();
    r.put(ITEM_PURCHASE_CACHE, 2, "q".to_string(), 0).unwrap();
    let cs = CacheStats::of(&r);
    assert_eq!(cs.stats_cache_entry_count, 0);
    assert_eq!(cs.item_listings_entry_count, 1);
    assert_eq!(cs.item_purchase_entry_count, 2);
}

#[test]
fn cache_stats_of_unregistered_caches() {
    let r: Registry<String, u32> = Registry::new();
    let cs = CacheStats::of(&r);
    assert_eq!(cs.stats_cache_entry_count, 0);
    assert_eq!(cs.item_listings_entry_count, 0);
    assert_eq!(cs.item_purchase_entry_count, 0);
}

#[test]
fn single_caller_leads_once() {
    let mut c: NamedCache<String, u32> = NamedCache::new("stats".to_string(), item_policy());
    let t = lead_ticket(c.begin(0, 0, 9));
    assert!(c.complete(0, t, Some("snapshot".to_string()), 1));
    assert!(!c.complete(0, t, Some("again".to_string()), 2));
    assert_eq!(c.get(0, 3), Some("snapshot".to_string()));
}

#[test]
fn registry_failed_load_then_retry() {
    let mut r: Registry<String, u32> = service_registry(DEFAULT_ITEMS_CAPACITY);
    let t = match r.begin_load(ITEM_PURCHASE_CACHE, 8, 0, 1) {
        Ok(LoadStep::Lead(t)) => t,
        _ => panic!("first caller leads"),
    };
    assert!(matches!(r.begin_load(ITEM_PURCHASE_CACHE, 8, 0, 2), Ok(LoadStep::Join(1))));
    assert_eq!(r.complete_load(ITEM_PURCHASE_CACHE, 8, t, None, 1), Ok(true));
    assert!(matches!(r.begin_load(ITEM_PURCHASE_CACHE, 8, 2, 3), Ok(LoadStep::Lead(_))));
}
