//! Checks on market uploads before they are written: which worlds are taken,
//! which times are representable, and which cache key a committed write makes
//! stale.
use vstd::prelude::*;
use crate::utc::{utc_instant_exists, valid_utc_secs};

verus! {

/// An upload of one item on one world.
pub struct Request<T> {
    pub world_id: i32,
    pub item_id: i32,
    pub uploader_id: String,
    pub listings: Vec<T>,
}

/// One listing of a listings upload.
pub struct RequestListing {
    pub hq: bool,
    pub seller_id: String,
    pub retainer_id: String,
    pub retainer_name: String,
    pub creator_id: String,
    pub creator_name: String,
    pub on_mannequin: bool,
    /// Unix seconds.
    pub last_review_time: i64,
    pub price_per_unit: i32,
    pub quantity: i32,
    pub retainer_city: i32,
    pub materia: Vec<ItemMateria>,
}

/// A materia melded into a listed item.
#[derive(Clone, Copy, Debug, PartialEq, Eq, Structural)]
pub struct ItemMateria {
    pub slot_id: i32,
    pub materia_id: i32,
}

/// One purchase of a purchase-history upload.
pub struct HistoryRequestListing {
    pub hq: bool,
    pub buyer_name: String,
    pub on_mannequin: bool,
    /// Unix seconds.
    pub purchase_time: i64,
    pub price_per_unit: i32,
    pub quantity: i32,
}

/// Why an upload is refused.
#[derive(Clone, Copy, Debug, PartialEq, Eq, Structural)]
pub enum UploadError {
    /// A listing's review time is not a representable instant.
    InvalidReviewTime,
    /// A listing has more materia than an `i32` counts.
    TooManyMateria,
    /// The oldest purchase time is not a representable instant.
    InvalidOldestPurchaseTime,
    /// A purchase time is not a representable instant.
    InvalidPurchaseTime,
}

/// Uploads from worlds numbered 0 or above 1000 are dropped.
pub open spec fn accepts_world(world_id: i32) -> bool {
    !(world_id > 1000 || world_id == 0)
}

/// Whether uploads from `world_id` are recorded.
pub fn world_accepted(world_id: i32) -> (r: bool)
    ensures
        r == accepts_world(world_id),
{
    !(world_id > 1000 || world_id == 0)
}

/// Whether a listing can be written.
pub open spec fn listing_ok(l: RequestListing) -> bool {
    valid_utc_secs(l.last_review_time as int) && l.materia@.len() <= i32::MAX
}

/// What is wrong with a listing that cannot be written: its time is checked
/// before its materia.
pub open spec fn listing_error(l: RequestListing) -> UploadError {
    if !valid_utc_secs(l.last_review_time as int) {
        UploadError::InvalidReviewTime
    } else {
        UploadError::TooManyMateria
    }
}

/// Checks the listings of an upload in order. On success, gives the materia
/// count of each; otherwise the error of the first listing that fails.
pub fn check_listings(listings: &Vec<RequestListing>) -> (r: Result<Vec<i32>, UploadError>)
    ensures
        match r {
            Ok(counts) => {
                &&& forall|i: int| 0 <= i < listings@.len() ==> #[trigger] listing_ok(listings@[i])
                &&& counts@.len() == listings@.len()
                &&& forall|i: int| 0 <= i < counts@.len() ==> #[trigger] counts@[i] == listings@[i].materia@.len()
            },
            Err(e) => exists|i: int|
                0 <= i < listings@.len() && !#[trigger] listing_ok(listings@[i]) && e == listing_error(listings@[i])
                    && forall|j: int| 0 <= j < i ==> listing_ok(listings@[j]),
        },
{
    let mut counts: Vec<i32> = Vec::new();
    let mut i: usize = 0;
    while i < listings.len()
        invariant
            i <= listings@.len(),
            counts@.len() == i,
            forall|j: int| 0 <= j < i ==> #[trigger] listing_ok(listings@[j]),
            forall|j: int| 0 <= j < i ==> #[trigger] counts@[j] == listings@[j].materia@.len(),
        decreases listings@.len() - i,
    {
        let l = &listings[i];
        if !utc_instant_exists(l.last_review_time) {
            assert(!listing_ok(listings@[i as int]));
            return Err(UploadError::InvalidReviewTime);
        }
        let n = l.materia.len();
        if n > i32::MAX as usize {
            assert(!listing_ok(listings@[i as int]));
            return Err(UploadError::TooManyMateria);
        }
        counts.push(n as i32);
        i = i + 1;
    }
    Ok(counts)
}

/// `m` is the earliest purchase time of `ls`.
pub open spec fn is_oldest(ls: Seq<HistoryRequestListing>, m: i64) -> bool {
    &&& exists|i: int| 0 <= i < ls.len() && #[trigger] ls[i].purchase_time == m
    &&& forall|i: int| 0 <= i < ls.len() ==> m <= #[trigger] ls[i].purchase_time
}

/// The earliest purchase time, if there is a purchase.
pub fn oldest_purchase_time(listings: &Vec<HistoryRequestListing>) -> (r: Option<i64>)
    ensures
        match r {
            None => listings@.len() == 0,
            Some(m) => is_oldest(listings@, m),
        },
{
    if listings.len() == 0 {
        return None;
    }
    let mut m = listings[0].purchase_time;
    let mut at: usize = 0;
    let mut i: usize = 1;
    while i < listings.len()
        invariant
            1 <= i <= listings@.len(),
            at < i,
            listings@[at as int].purchase_time == m,
            forall|j: int| 0 <= j < i ==> m <= #[trigger] listings@[j].purchase_time,
        decreases listings@.len() - i,
    {
        if listings[i].purchase_time < m {
            m = listings[i].purchase_time;
            at = i;
        }
        i = i + 1;
    }
    Some(m)
}

/// Checks a purchase-history upload: the oldest purchase time first, then
/// each purchase in order. On success, gives the oldest purchase time, from
/// which on the stored purchases are replaced (none for an empty upload).
pub fn check_history(listings: &Vec<HistoryRequestListing>) -> (r: Result<Option<i64>, UploadError>)
    ensures
        match r {
            Ok(None) => listings@.len() == 0,
            Ok(Some(m)) => {
                &&& is_oldest(listings@, m)
                &&& forall|i: int| 0 <= i < listings@.len() ==> valid_utc_secs(#[trigger] listings@[i].purchase_time as int)
            },
            Err(UploadError::InvalidOldestPurchaseTime) => exists|m: i64|
                is_oldest(listings@, m) && !#[trigger] valid_utc_secs(m as int),
            Err(UploadError::InvalidPurchaseTime) => {
                &&& forall|m: i64| is_oldest(listings@, m) ==> #[trigger] valid_utc_secs(m as int)
                &&& exists|i: int| 0 <= i < listings@.len() && !valid_utc_secs(#[trigger] listings@[i].purchase_time as int)
            },
            Err(_) => false,
        },
{
    match oldest_purchase_time(listings) {
        None => Ok(None),
        Some(m) => {
            if !utc_instant_exists(m) {
                return Err(UploadError::InvalidOldestPurchaseTime);
            }
            proof {
                assert forall|m2: i64| is_oldest(listings@, m2) implies #[trigger] valid_utc_secs(m2 as int) by {
                    let a = choose|a: int| 0 <= a < listings@.len() && #[trigger] listings@[a].purchase_time == m;
                    let b = choose|b: int| 0 <= b < listings@.len() && #[trigger] listings@[b].purchase_time == m2;
                    assert(m <= listings@[b].purchase_time);
                    assert(m2 <= listings@[a].purchase_time);
                }
            }
            let mut i: usize = 0;
            while i < listings.len()
                invariant
                    i <= listings@.len(),
                    is_oldest(listings@, m),
                    forall|m2: i64| is_oldest(listings@, m2) ==> #[trigger] valid_utc_secs(m2 as int),
                    forall|j: int| 0 <= j < i ==> valid_utc_secs(#[trigger] listings@[j].purchase_time as int),
                decreases listings@.len() - i,
            {
                if !utc_instant_exists(listings[i].purchase_time) {
                    assert(!valid_utc_secs(listings@[i as int].purchase_time as int));
                    return Err(UploadError::InvalidPurchaseTime);
                }
                i = i + 1;
            }
            Ok(Some(m))
        },
    }
}

/// The cache key that a committed write of `item_id` makes stale: the item's
/// own key, when the write changed any row, and none otherwise.
pub fn stale_key(item_id: i32, rows_affected: u64) -> (r: Option<i64>)
    ensures
        r == (if rows_affected > 0 { Some(item_id as i64) } else { None::<i64> }),
{
    if rows_affected > 0 { Some(item_id as i64) } else { None }
}

} // verus!
