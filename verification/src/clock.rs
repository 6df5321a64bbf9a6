//! Readings of the system clock, through `chrono` and `chrono-tz`. Every reading
//! depends on the time of the call, so no contract says which value it returns.

use chrono::Datelike;
use vstd::prelude::*;

verus! {

/// A calendar date: year, month (from 1) and day of the month (from 1).
#[derive(Clone, Copy, Debug, PartialEq, Eq, Structural)]
pub struct CalendarDate {
    pub year: i32,
    pub month: u32,
    pub day: u32,
}

/// Whether `a` falls on or before `b` in the calendar.
pub open spec fn date_on_or_before(a: CalendarDate, b: CalendarDate) -> bool {
    ||| a.year < b.year
    ||| a.year == b.year && a.month < b.month
    ||| a.year == b.year && a.month == b.month && a.day <= b.day
}

/// The Unix time, in seconds, of the last second that `chrono` represents:
/// 262142-12-31 23:59:59 UTC (`DateTime::<Utc>::MAX_UTC`).
pub open spec fn latest_unix_seconds() -> int {
    8_210_266_876_799
}

/// `chrono::Utc::now().timestamp()`: the current Unix time in seconds. The
/// contract claims only that it is no later than the last second `chrono`
/// represents, since `Utc::now` builds a `DateTime<Utc>` (or panics) and no
/// such value lies past `DateTime::<Utc>::MAX_UTC`.
#[verifier::external_body]
pub(crate) fn now_unix_seconds() -> (res: i64)
    ensures
        res <= latest_unix_seconds(),
{
    chrono::Utc::now().timestamp()
}

/// `chrono::Utc::now().timestamp_millis()`: the current Unix time in milliseconds.
#[verifier::external_body]
pub(crate) fn now_unix_millis() -> i64 {
    chrono::Utc::now().timestamp_millis()
}

/// `chrono::Utc::now().date_naive()`: today's date in UTC.
#[verifier::external_body]
pub(crate) fn utc_today() -> CalendarDate {
    let today = chrono::Utc::now().date_naive();
    CalendarDate { year: today.year(), month: today.month(), day: today.day() }
}

/// `chrono::Utc::now().with_timezone(&chrono_tz::America::Chicago).date_naive()`:
/// today's date in Chicago.
#[verifier::external_body]
pub(crate) fn chicago_today() -> CalendarDate {
    let today = chrono::Utc::now().with_timezone(&chrono_tz::America::Chicago).date_naive();
    CalendarDate { year: today.year(), month: today.month(), day: today.day() }
}

} // verus!
