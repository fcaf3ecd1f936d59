use xivhub_market::stats::{DayCount, Stats};

fn day(count: i64, day: i32) -> DayCount {
    DayCount { count: Some(count), day: Some(day) }
}

#[test]
fn stats_assembled_oldest_day_first() {
    let s = Stats::assemble(
        Some(10),
        None,
        Some(3),
        Some(2),
        None,
        vec![day(5, 19_000), day(4, 18_999), day(1, 18_998)],
        vec![day(7, 19_000)],
    );
    assert_eq!(s.total_uploads, 10);
    assert_eq!(s.active_listings, 0);
    assert_eq!(s.total_purchases, 3);
    assert_eq!(s.unique_uploaders, 2);
    assert_eq!(s.unique_items, 0);
    assert_eq!(s.uploads_per_day, vec![day(1, 18_998), day(4, 18_999), day(5, 19_000)]);
    assert_eq!(s.purchase_by_day, vec![day(7, 19_000)]);
}

#[test]
fn stats_assembled_empty_days() {
    let s = Stats::assemble(None, None, None, None, None, vec![], vec![DayCount { count: None, day: None }]);
    assert_eq!(s.total_uploads, 0);
    assert!(s.uploads_per_day.is_empty());
    assert_eq!(s.purchase_by_day, vec![DayCount { count: None, day: None }]);
}
