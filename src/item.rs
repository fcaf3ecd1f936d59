//! Query parameters of the item endpoints and the paging rules they follow.
use vstd::prelude::*;

verus! {

/// The listings endpoint takes no parameter.
pub struct ListingsQuery {}

/// The purchases endpoint takes a page number, the first page by default.
#[derive(Clone, Copy, Debug, PartialEq, Eq, Structural)]
pub struct PurchasesQuery {
    pub page: Option<i64>,
}

/// The item list endpoint takes a page number and a name to search for.
pub struct ItemListQuery {
    pub page: Option<i64>,
    pub search: Option<String>,
}

/// An item of the item list, with its number of listings.
pub struct ItemList {
    pub item_id: i32,
    pub name: String,
    pub icon: String,
    pub icon_hd: String,
    pub description: String,
    pub item_kind_name: String,
    pub item_kind_id: i32,
    pub item_search_category: i32,
    pub item_search_category_iconhd: String,
    pub item_search_category_name: String,
    pub stack_size: i32,
    pub level_item: i32,
    pub level_equip: i32,
    pub materia_slot_count: i32,
    pub rarity: i32,
    pub can_be_hq: bool,
    pub listings: Option<i64>,
}

/// One page of the item list.
pub struct ListItemsResponse {
    pub items: Vec<ItemList>,
    pub page: i64,
    pub total_pages: i64,
}

/// Purchases per page.
pub const PURCHASES_PAGE_SIZE: i64 = 250;

/// Items per page when searching by name.
pub const SEARCH_PAGE_SIZE: i64 = 100;

/// Items per page of the plain list, and the unit the page total counts in.
pub const LIST_PAGE_SIZE: i64 = 50;

/// `page * size` where it fits an `i64`.
pub open spec fn page_offset(page: i64, size: i64) -> Option<i64> {
    if i64::MIN <= page * size <= i64::MAX { Some((page * size) as i64) } else { None }
}

fn checked_offset(page: i64, size: i64) -> (r: Option<i64>)
    requires
        0 < size <= 1000,
    ensures
        r == page_offset(page, size),
{
    proof {
        assert(-1000 * 0x8000_0000_0000_0000 <= page * size <= 1000 * 0x8000_0000_0000_0000) by (nonlinear_arith)
            requires
                0 < size <= 1000,
                -0x8000_0000_0000_0000 <= page < 0x8000_0000_0000_0000,
        ;
    }
    let p: i128 = (page as i128) * (size as i128);
    if i64::MIN as i128 <= p && p <= i64::MAX as i128 {
        Some(p as i64)
    } else {
        None
    }
}

impl PurchasesQuery {
    /// The page asked for, the first one (0) when none is given.
    pub fn page_number(&self) -> (r: i64)
        ensures
            r == match self.page {
                Some(p) => p,
                None => 0,
            },
    {
        match self.page {
            Some(p) => p,
            None => 0,
        }
    }
}

/// Only the first page of purchases is cached; the others always go to the
/// backing store.
pub fn purchases_page_cached(page: i64) -> (r: bool)
    ensures
        r == (page == 0),
{
    page == 0
}

/// The number of purchases skipped before `page`, if it fits an `i64`.
pub fn purchases_offset(page: i64) -> (r: Option<i64>)
    ensures
        r == page_offset(page, PURCHASES_PAGE_SIZE),
{
    checked_offset(page, PURCHASES_PAGE_SIZE)
}

impl ItemListQuery {
    /// The page asked for, the first one (0) when none is given.
    pub fn page_number(&self) -> (r: i64)
        ensures
            r == match self.page {
                Some(p) => p,
                None => 0,
            },
    {
        match self.page {
            Some(p) => p,
            None => 0,
        }
    }

    /// The number of items skipped before the page asked for: pages of a
    /// search hold `SEARCH_PAGE_SIZE` items, pages of the plain list are
    /// counted in `LIST_PAGE_SIZE`. `None` where that does not fit an `i64`.
    pub fn offset(&self) -> (r: Option<i64>)
        ensures
            r == page_offset(
                match self.page {
                    Some(p) => p,
                    None => 0,
                },
                if self.search is Some { SEARCH_PAGE_SIZE } else { LIST_PAGE_SIZE },
            ),
    {
        let page = self.page_number();
        match &self.search {
            Some(_) => checked_offset(page, SEARCH_PAGE_SIZE),
            None => checked_offset(page, LIST_PAGE_SIZE),
        }
    }
}

/// The SQL `LIKE` pattern that finds `search` anywhere in a name.
pub fn search_pattern(search: &str) -> (r: String)
    ensures
        r@ == "%"@ + search@ + "%"@,
{
    let mut r = String::from_str("%");
    r.append(search);
    r.append("%");
    r
}

/// The number of pages reported for `total_items` items (none counted as 0).
pub open spec fn pages_for(total_items: Option<i64>) -> int {
    match total_items {
        Some(n) => if n >= 0 { n as int / (LIST_PAGE_SIZE as int) } else { -((-(n as int)) / (LIST_PAGE_SIZE as int)) },
        None => 0,
    }
}

impl ListItemsResponse {
    /// A page of the item list, with the page total worked out from the
    /// number of items matched; integer division rounds toward zero.
    pub fn new(items: Vec<ItemList>, page: i64, total_items: Option<i64>) -> (r: Self)
        ensures
            r.items@ == items@,
            r.page == page,
            r.total_pages == pages_for(total_items),
    {
        let n: i64 = match total_items {
            Some(n) => n,
            None => 0,
        };
        let total_pages = if n >= 0 {
            n / LIST_PAGE_SIZE
        } else {
            let q = (-(n as i128)) / (LIST_PAGE_SIZE as i128);
            -(q as i64)
        };
        ListItemsResponse { items, page, total_pages }
    }
}

} // verus!
