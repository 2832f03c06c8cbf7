//! The recency window: a record is recent when its start month is not earlier
//! than the month that lies 365 days before the present day.
use chrono::Datelike;
use vstd::prelude::*;
use vstd::string::StringSliceAdditionalSpecFns;
use crate::text::{decimal_in, decimal_u32};

verus! {

/// A calendar day, as year, month (1 to 12) and day of the month.
#[derive(Clone, Copy, Debug, PartialEq, Eq)]
pub struct CivilDate {
    pub year: i32,
    pub month: u32,
    pub day: u32,
}

/// A calendar month: the granularity of the recency window.
#[derive(Clone, Copy, Debug, PartialEq, Eq)]
pub struct YearMonth {
    pub year: i32,
    pub month: u32,
}

/// Year and month of the calendar day that lies `days` days before the given
/// day, or `None` where the day does not exist or the result leaves the
/// calendar's range.
pub uninterp spec fn year_month_days_before(year: int, month: int, day: int, days: int) -> Option<(int, int)>;

/// Days between the present day and the start of the recency window.
pub const WINDOW_DAYS: u32 = 365;

/// Relies on chrono's `NaiveDate::from_ymd_opt` and `NaiveDate::checked_sub_days`,
/// and on `Datelike::month` returning a month between 1 and 12.
#[verifier::external_body]
fn days_before(date: CivilDate, days: u32) -> (r: Option<YearMonth>)
    ensures
        r matches Some(ym) ==> 1 <= ym.month <= 12,
        r matches Some(ym) ==> year_month_days_before(date.year as int, date.month as int, date.day as int, days as int)
            == Some((ym.year as int, ym.month as int)),
        r is None ==> year_month_days_before(date.year as int, date.month as int, date.day as int, days as int) is None,
{
    let d = chrono::NaiveDate::from_ymd_opt(date.year, date.month, date.day)?;
    let e = d.checked_sub_days(chrono::Days::new(days as u64))?;
    Some(YearMonth { year: e.year(), month: e.month() })
}

/// Relies on std's `SystemTime::now` and `duration_since(UNIX_EPOCH)`, which fails
/// for a clock set before 1970, and on chrono's `DateTime::from_timestamp`, which
/// returns `None` outside chrono's range: the present day in UTC, where both
/// succeed, with a month between 1 and 12 and a day between 1 and 31.
#[verifier::external_body]
fn utc_today() -> (r: Option<CivilDate>)
    ensures
        r matches Some(d) ==> 1 <= d.month <= 12 && 1 <= d.day <= 31,
{
    let since = std::time::SystemTime::now().duration_since(std::time::UNIX_EPOCH).ok()?;
    let secs = i64::try_from(since.as_secs()).ok()?;
    let d = chrono::DateTime::from_timestamp(secs, since.subsec_nanos())?.date_naive();
    Some(CivilDate { year: d.year(), month: d.month(), day: d.day() })
}

/// The first month of the recency window for a given present day: the month of
/// the day that lies 365 days earlier.
pub open spec fn cutoff_of(today: CivilDate) -> Option<(int, int)> {
    year_month_days_before(today.year as int, today.month as int, today.day as int, WINDOW_DAYS as int)
}

/// The first month of the recency window when the present day is `today`;
/// `None` where `today` is no calendar day.
pub fn recency_cutoff(today: CivilDate) -> (r: Option<YearMonth>)
    ensures
        r matches Some(ym) ==> 1 <= ym.month <= 12 && cutoff_of(today) == Some((ym.year as int, ym.month as int)),
        r is None <==> cutoff_of(today) is None,
{
    days_before(today, WINDOW_DAYS)
}

/// The first month of the recency window, measured from the system clock;
/// `None` where the clock gives no calendar day.
pub fn current_cutoff() -> (r: Option<YearMonth>)
    ensures
        r matches Some(ym) ==> 1 <= ym.month <= 12,
        r matches Some(ym) ==> exists|today: CivilDate| cutoff_of(today) == Some((ym.year as int, ym.month as int)),
{
    match utc_today() {
        Some(today) => recency_cutoff(today),
        None => None,
    }
}

/// The year and month written in the first seven bytes of a date (`YYYY-MM`),
/// where both fields are decimal digits.
pub open spec fn date_year_month(date: Seq<u8>) -> Option<(int, int)> {
    if date.len() < 7 {
        None
    } else {
        match (decimal_u32(date.subrange(0, 4)), decimal_u32(date.subrange(5, 7))) {
            (Some(y), Some(m)) => Some((y as int, m as int)),
            _ => None,
        }
    }
}

/// Whether a date falls in or after the cutoff month.
pub open spec fn recent(date: Seq<u8>, cutoff: YearMonth) -> bool {
    match date_year_month(date) {
        Some((y, m)) => y > cutoff.year || (y == cutoff.year && m >= cutoff.month),
        None => false,
    }
}

/// Whether the date string starts with a year and month (`YYYY-MM`) that are not
/// earlier than `cutoff`. A string shorter than seven bytes, or whose year or
/// month is not made of digits, is not recent.
pub fn is_recent(date: &str, cutoff: YearMonth) -> (r: bool)
    ensures
        r == recent(date.spec_bytes(), cutoff),
{
    let b = date.as_bytes();
    if b.len() < 7 {
        return false;
    }
    let year = decimal_in(b, 0, 4);
    let month = decimal_in(b, 5, 7);
    match (year, month) {
        (Some(y), Some(m)) => {
            proof {
                crate::text::lemma_small_decimal(b@.subrange(0, 4));
            }
            let y = y as i32;
            y > cutoff.year || (y == cutoff.year && m >= cutoff.month)
        },
        _ => false,
    }
}

} // verus!
