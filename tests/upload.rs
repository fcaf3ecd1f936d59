use xivhub_market::utc::{MAX_UTC_SECS, MIN_UTC_SECS};
use xivhub_market::upload::{
    check_history, check_listings, oldest_purchase_time, stale_key, world_accepted, HistoryRequestListing,
    ItemMateria, Request, RequestListing, UploadError,
};

fn listing(last_review_time: i64, materia: usize) -> RequestListing {
    RequestListing {
        hq: false,
        seller_id: "seller".to_string(),
        retainer_id: "retainer".to_string(),
        retainer_name: "Ret".to_string(),
        creator_id: "creator".to_string(),
        creator_name: "Crafter".to_string(),
        on_mannequin: false,
        last_review_time,
        price_per_unit: 100,
        quantity: 2,
        retainer_city: 1,
        materia: (0..materia).map(|i| ItemMateria { slot_id: i as i32, materia_id: 7 }).collect(),
    }
}

fn purchase(purchase_time: i64) -> HistoryRequestListing {
    HistoryRequestListing {
        hq: true,
        buyer_name: "Buyer".to_string(),
        on_mannequin: false,
        purchase_time,
        price_per_unit: 50,
        quantity: 1,
    }
}

#[test]
fn worlds_accepted() {
    assert!(world_accepted(1));
    assert!(world_accepted(1000));
    assert!(!world_accepted(0));
    assert!(!world_accepted(1001));
    assert!(world_accepted(-3));
}

#[test]
fn listings_checked() {
    let req = Request {
        world_id: 73,
        item_id: 5,
        uploader_id: "u".to_string(),
        listings: vec![listing(1_677_000_000, 0), listing(1_677_000_100, 3)],
    };
    assert_eq!(check_listings(&req.listings), Ok(vec![0, 3]));
    assert_eq!(check_listings(&Vec::new()), Ok(vec![]));
}

#[test]
fn listings_bad_review_time() {
    let ls = vec![listing(0, 1), listing(MAX_UTC_SECS + 1, 0), listing(i64::MIN, 0)];
    assert_eq!(check_listings(&ls), Err(UploadError::InvalidReviewTime));
}

#[test]
fn utc_range_bounds() {
    assert_eq!(check_listings(&vec![listing(MAX_UTC_SECS, 0)]), Ok(vec![0]));
    assert_eq!(check_listings(&vec![listing(MIN_UTC_SECS, 0)]), Ok(vec![0]));
    assert_eq!(check_listings(&vec![listing(MIN_UTC_SECS - 1, 0)]), Err(UploadError::InvalidReviewTime));
    assert_eq!(check_listings(&vec![listing(MAX_UTC_SECS + 1, 0)]), Err(UploadError::InvalidReviewTime));
    assert_eq!(check_listings(&vec![listing(i64::MAX, 0)]), Err(UploadError::InvalidReviewTime));
}

#[test]
fn oldest_purchase() {
    assert_eq!(oldest_purchase_time(&vec![]), None);
    assert_eq!(oldest_purchase_time(&vec![purchase(30), purchase(10), purchase(20)]), Some(10));
    assert_eq!(oldest_purchase_time(&vec![purchase(-5)]), Some(-5));
}

#[test]
fn history_checked() {
    assert_eq!(check_history(&vec![]), Ok(None));
    assert_eq!(check_history(&vec![purchase(300), purchase(200)]), Ok(Some(200)));
}

#[test]
fn history_bad_oldest_time() {
    assert_eq!(
        check_history(&vec![purchase(100), purchase(MIN_UTC_SECS - 1)]),
        Err(UploadError::InvalidOldestPurchaseTime)
    );
}

#[test]
fn history_bad_purchase_time() {
    assert_eq!(
        check_history(&vec![purchase(100), purchase(MAX_UTC_SECS + 1)]),
        Err(UploadError::InvalidPurchaseTime)
    );
}

#[test]
fn stale_key_only_when_rows_changed() {
    assert_eq!(stale_key(5, 0), None);
    assert_eq!(stale_key(5, 3), Some(5));
    assert_eq!(stale_key(-2, 1), Some(-2));
}
