//! Instants as Unix seconds, and the calendar arithmetic the service takes
//! from chrono.
use vstd::prelude::*;
use chrono::TimeZone;

verus! {

/// The first second of the year -262143, in Unix seconds.
pub const MIN_UTC_SECS: i64 = -8334601228800;

/// The last second of the year 262142, in Unix seconds.
pub const MAX_UTC_SECS: i64 = 8210266876799;

/// Whether `secs` seconds after the Unix epoch is an instant that a UTC date
/// and time can hold.
pub open spec fn valid_utc_secs(secs: int) -> bool {
    MIN_UTC_SECS <= secs <= MAX_UTC_SECS
}

/// Relies on chrono's `TimeZone::timestamp_opt` for `Utc` with no
/// nanoseconds: it gives a single instant exactly when the date falls in the
/// years -262143 to 262142, the range `NaiveDate` accepts.
#[verifier::external_body]
pub(crate) fn utc_instant_exists(secs: i64) -> (r: bool)
    ensures
        r == valid_utc_secs(secs as int),
{
    chrono::Utc.timestamp_opt(secs, 0).single().is_some()
}

/// The instant `months` calendar months before the UTC instant `secs`, in
/// Unix seconds, or none where that falls outside the calendar's range.
pub uninterp spec fn months_before_utc(secs: i64, months: u32) -> Option<i64>;

/// Relies on chrono's `DateTime::<Utc>::checked_sub_months`: the same time of
/// day `months` calendar months earlier, on the last day of the month where
/// the day does not exist there, and `None` out of range. For `Utc` the
/// result depends on the instant and the count alone.
#[verifier::external_body]
fn utc_months_earlier(secs: i64, months: u32) -> (r: Option<i64>)
    requires
        valid_utc_secs(secs as int),
    ensures
        r == months_before_utc(secs, months),
{
    match chrono::Utc.timestamp_opt(secs, 0).single() {
        Some(t) => match t.checked_sub_months(chrono::Months::new(months)) {
            Some(earlier) => Some(earlier.timestamp()),
            None => None,
        },
        None => None,
    }
}

/// The instant `months` calendar months before `secs`: none where `secs` is
/// not an instant of the calendar, or the result is not.
pub open spec fn months_before(secs: i64, months: u32) -> Option<i64> {
    if valid_utc_secs(secs as int) { months_before_utc(secs, months) } else { None }
}

/// `months` calendar months before the instant `secs` (Unix seconds).
pub fn months_earlier(secs: i64, months: u32) -> (r: Option<i64>)
    ensures
        r == months_before(secs, months),
{
    if utc_instant_exists(secs) {
        utc_months_earlier(secs, months)
    } else {
        None
    }
}

} // verus!
