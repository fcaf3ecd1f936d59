use xivhub_market::item::{
    purchases_offset, purchases_page_cached, search_pattern, ItemListQuery, ListItemsResponse, PurchasesQuery,
};

#[test]
fn purchases_page_defaults_to_first() {
    assert_eq!(PurchasesQuery { page: None }.page_number(), 0);
    assert_eq!(PurchasesQuery { page: Some(3) }.page_number(), 3);
}

#[test]
fn only_first_purchase_page_cached() {
    assert!(purchases_page_cached(0));
    assert!(!purchases_page_cached(1));
    assert!(!purchases_page_cached(-1));
}

#[test]
fn purchases_offsets() {
    assert_eq!(purchases_offset(0), Some(0));
    assert_eq!(purchases_offset(2), Some(500));
    assert_eq!(purchases_offset(-1), Some(-250));
    assert_eq!(purchases_offset(i64::MAX / 250), Some(i64::MAX / 250 * 250));
    assert_eq!(purchases_offset(i64::MAX / 250 + 1), None);
    assert_eq!(purchases_offset(i64::MIN), None);
}

#[test]
fn item_list_offsets() {
    let plain = ItemListQuery { page: Some(2), search: None };
    assert_eq!(plain.page_number(), 2);
    assert_eq!(plain.offset(), Some(100));
    let search = ItemListQuery { page: Some(2), search: Some("potion".to_string()) };
    assert_eq!(search.offset(), Some(200));
    let first = ItemListQuery { page: None, search: None };
    assert_eq!(first.offset(), Some(0));
    let huge = ItemListQuery { page: Some(i64::MAX), search: None };
    assert_eq!(huge.offset(), None);
}

#[test]
fn search_patterns() {
    assert_eq!(search_pattern("potion"), "%potion%");
    assert_eq!(search_pattern(""), "%%");
}

#[test]
fn item_list_total_pages() {
    assert_eq!(ListItemsResponse::new(vec![], 0, Some(120)).total_pages, 2);
    assert_eq!(ListItemsResponse::new(vec![], 0, Some(49)).total_pages, 0);
    assert_eq!(ListItemsResponse::new(vec![], 1, None).total_pages, 0);
    assert_eq!(ListItemsResponse::new(vec![], 1, Some(-120)).total_pages, -2);
    assert_eq!(ListItemsResponse::new(vec![], 4, Some(i64::MIN)).total_pages, i64::MIN / 50);
    assert_eq!(ListItemsResponse::new(vec![], 4, Some(50)).page, 4);
}
