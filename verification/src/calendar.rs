//! Dates as days counted from 1970-01-01 and local wall-clock times as seconds
//! counted from 1970-01-01 00:00, with the calendar arithmetic the charts and the
//! date navigator use.
use vstd::prelude::*;
use chrono::{DateTime, Datelike, Local, Months, NaiveDate, Weekday};

verus! {

/// Days from 1970-01-01 to the earliest date chrono represents (January 1, 262144 BCE).
pub const MIN_DAY: i32 = -96465293;

/// Days from 1970-01-01 to the latest date chrono represents (December 31, 262142 CE).
pub const MAX_DAY: i32 = 95026236;

pub const SECONDS_PER_HOUR: i64 = 3600;

pub const SECONDS_PER_DAY: i64 = 86400;

pub const SECONDS_PER_WEEK: i64 = 604800;

/// A day that chrono can represent.
pub open spec fn valid_day(d: int) -> bool {
    MIN_DAY <= d <= MAX_DAY
}

/// A local wall-clock time (seconds) whose date chrono can represent.
pub open spec fn valid_time(s: int) -> bool {
    MIN_DAY * SECONDS_PER_DAY <= s < (MAX_DAY + 1) * SECONDS_PER_DAY
}

/// `checked_add_days`: the day `n` days later, if it can be represented.
pub fn add_days(day: i32, n: u32) -> (r: Option<i32>)
    requires
        valid_day(day as int),
    ensures
        r == (if day + n <= MAX_DAY { Some((day + n) as i32) } else { None::<i32> }),
{
    if n as i64 <= MAX_DAY as i64 - day as i64 {
        Some((day as i64 + n as i64) as i32)
    } else {
        None
    }
}

/// `checked_sub_days`: the day `n` days earlier, if it can be represented.
pub fn sub_days(day: i32, n: u32) -> (r: Option<i32>)
    requires
        valid_day(day as int),
    ensures
        r == (if day - n >= MIN_DAY { Some((day - n) as i32) } else { None::<i32> }),
{
    if n as i64 <= day as i64 - MIN_DAY as i64 {
        Some((day as i64 - n as i64) as i32)
    } else {
        None
    }
}

/// What chrono's `checked_add_months` gives for the date `day` and `months`.
pub uninterp spec fn months_later(day: i32, months: u32) -> Option<i32>;

/// What chrono's `checked_sub_months` gives for the date `day` and `months`.
pub uninterp spec fn months_earlier(day: i32, months: u32) -> Option<i32>;

/// What chrono's `with_day(1)` gives for the date `day`: the first day of its month.
pub uninterp spec fn first_of_month(day: i32) -> Option<i32>;

/// `NaiveDate::checked_add_months`: the same day of the month `months` months
/// later, clamped to the last day of a shorter month; `None` when out of range.
/// Claimed: the result equals `months_later(day, months)` and is a representable day.
#[verifier::external_body]
pub(crate) fn add_months(day: i32, months: u32) -> (r: Option<i32>)
    ensures
        r == months_later(day, months),
        r matches Some(x) ==> valid_day(x as int),
{
    match NaiveDate::from_epoch_days(day) {
        Some(d) => match d.checked_add_months(Months::new(months)) {
            Some(x) => Some(x.to_epoch_days()),
            None => None,
        },
        None => None,
    }
}

/// `NaiveDate::checked_sub_months`, the mirror of [`add_months`].
/// Claimed: the result equals `months_earlier(day, months)` and is a representable day.
#[verifier::external_body]
pub(crate) fn sub_months(day: i32, months: u32) -> (r: Option<i32>)
    ensures
        r == months_earlier(day, months),
        r matches Some(x) ==> valid_day(x as int),
{
    match NaiveDate::from_epoch_days(day) {
        Some(d) => match d.checked_sub_months(Months::new(months)) {
            Some(x) => Some(x.to_epoch_days()),
            None => None,
        },
        None => None,
    }
}

/// `Datelike::with_day(1)`: the first day of the month that holds `day`.
/// Claimed: the result equals `first_of_month(day)`; for a representable day it
/// exists and lies at most 30 days before it (day 1 exists in every month, and a
/// month has at most 31 days).
#[verifier::external_body]
pub(crate) fn month_start(day: i32) -> (r: Option<i32>)
    ensures
        r == first_of_month(day),
        valid_day(day as int) ==> r is Some,
        r matches Some(f) ==> valid_day(f as int) && f <= day && day - f <= 30,
{
    match NaiveDate::from_epoch_days(day) {
        Some(d) => match d.with_day(1) {
            Some(x) => Some(x.to_epoch_days()),
            None => None,
        },
        None => None,
    }
}

/// The Monday of the week that holds `day` (1970-01-01 was a Thursday).
pub open spec fn monday_of(day: int) -> int {
    day - (day + 3) % 7
}

/// `NaiveDate::from_isoywd_opt(iso_year, iso_week, Monday)` for the ISO week of
/// `day`: the Monday that starts the ISO week holding `day`.
/// Claimed: that Monday, when it can be represented.
#[verifier::external_body]
pub(crate) fn iso_week_monday(day: i32) -> (r: Option<i32>)
    requires
        valid_day(day as int),
    ensures
        r == (if valid_day(monday_of(day as int)) {
            Some(monday_of(day as int) as i32)
        } else {
            None::<i32>
        }),
{
    match NaiveDate::from_epoch_days(day) {
        Some(d) => {
            let week = d.iso_week();
            match NaiveDate::from_isoywd_opt(week.year(), week.week(), Weekday::Mon) {
                Some(x) => Some(x.to_epoch_days()),
                None => None,
            }
        },
        None => None,
    }
}

/// A timestamp at least a day inside the dates chrono represents, so that
/// shifting it by any time zone offset (less than a day) stays inside them.
pub open spec fn local_convertible(timestamp: int) -> bool {
    (MIN_DAY + 1) * SECONDS_PER_DAY <= timestamp < MAX_DAY * SECONDS_PER_DAY
}

/// Whether a timestamp can be shown in the machine's time zone (see
/// [`local_convertible`]).
pub fn is_local_convertible(timestamp: i64) -> (r: bool)
    ensures
        r == local_convertible(timestamp as int),
{
    (-96465293i64 + 1) * 86400 <= timestamp && timestamp < 95026236i64 * 86400
}

/// A local time that a UTC timestamp can show as on some machine: a time zone
/// is less than a day away from UTC.
pub open spec fn local_near(timestamp: i64, local: i64) -> bool {
    timestamp - SECONDS_PER_DAY < local < timestamp + SECONDS_PER_DAY
}

/// `DateTime::from_timestamp(timestamp, 0)` shown in the machine's time zone,
/// as local wall-clock seconds from 1970-01-01 00:00. Which local time it is
/// depends on the time zone of the machine, so only this is claimed: there is
/// a result (the timestamp is within chrono's range), its date can be
/// represented, and it lies less than a day from the timestamp (chrono's
/// `FixedOffset`, which `Local` gives, is always less than a day from UTC).
/// A timestamp within a day of either end of chrono's dates would make
/// `naive_local` panic, so it is not allowed.
#[verifier::external_body]
pub(crate) fn local_time_of(timestamp: i64) -> (r: Option<i64>)
    requires
        local_convertible(timestamp as int),
    ensures
        r is Some,
        r matches Some(s) ==> valid_time(s as int) && local_near(timestamp, s),
{
    match DateTime::from_timestamp(timestamp, 0) {
        Some(t) => Some(t.with_timezone(&Local).naive_local().and_utc().timestamp()),
        None => None,
    }
}

/// The date of a local time.
pub open spec fn day_of_time(s: int) -> int {
    s / (SECONDS_PER_DAY as int)
}

/// The start of the hour that holds a local time.
pub open spec fn hour_floor(s: int) -> int {
    s - s % (SECONDS_PER_HOUR as int)
}

/// Midnight of the day that holds a local time.
pub open spec fn day_floor(s: int) -> int {
    s - s % (SECONDS_PER_DAY as int)
}

/// Shift used to divide non-negative numbers only.
const TIME_SHIFT: i64 = 8334601315200;

/// The date of a local time (floor division by a day).
pub fn time_to_day(s: i64) -> (r: i32)
    requires
        valid_time(s as int),
    ensures
        r == day_of_time(s as int),
        valid_day(r as int),
{
    assert(TIME_SHIFT == -(MIN_DAY as int) * SECONDS_PER_DAY);
    let shifted = s + TIME_SHIFT;
    let q = shifted / SECONDS_PER_DAY;
    proof {
        vstd::arithmetic::div_mod::lemma_mod_multiples_vanish(96465293, s as int, 86400);
        vstd::arithmetic::div_mod::lemma_fundamental_div_mod(s as int + TIME_SHIFT, 86400);
        vstd::arithmetic::div_mod::lemma_fundamental_div_mod(s as int, 86400);
    }
    (q - 96465293) as i32
}

/// Start of the hour holding a local time.
pub fn hour_start(s: i64) -> (r: i64)
    requires
        valid_time(s as int),
    ensures
        r == hour_floor(s as int),
        valid_time(r as int),
{
    let shifted = s + TIME_SHIFT;
    let m = shifted % SECONDS_PER_HOUR;
    proof {
        vstd::arithmetic::div_mod::lemma_mod_multiples_vanish(2315167032, s as int, 3600);
    }
    s - m
}

/// Midnight of the day holding a local time.
pub fn day_start(s: i64) -> (r: i64)
    requires
        valid_time(s as int),
    ensures
        r == day_floor(s as int),
        r == day_of_time(s as int) * SECONDS_PER_DAY,
        valid_time(r as int),
{
    let shifted = s + TIME_SHIFT;
    let m = shifted % SECONDS_PER_DAY;
    proof {
        vstd::arithmetic::div_mod::lemma_mod_multiples_vanish(96465293, s as int, 86400);
        vstd::arithmetic::div_mod::lemma_fundamental_div_mod(s as int, 86400);
    }
    s - m
}

} // verus!

verus! {

/// What setting the day, then the month, then the year of the date `base` to
/// those of `date` gives (`with_day`, `with_month`, `with_year`).
pub uninterp spec fn redated(base: i32, date: i32) -> Option<i32>;

/// `Datelike::with_day(date.day())`, then `with_month(date.month())`, then
/// `with_year(date.year())` on `base`. Each step fails when the date it would
/// make does not exist (such as a 30th in February). Claimed: the result is
/// `redated(base, date)`, and when every step succeeds the date made is `date`.
#[verifier::external_body]
pub(crate) fn redate(base: i32, date: i32) -> (r: Option<i32>)
    ensures
        r == redated(base, date),
        r matches Some(x) ==> x == date,
{
    match (NaiveDate::from_epoch_days(base), NaiveDate::from_epoch_days(date)) {
        (Some(b), Some(d)) => match b.with_day(d.day()) {
            Some(b1) => match b1.with_month(d.month()) {
                Some(b2) => match b2.with_year(d.year()) {
                    Some(b3) => Some(b3.to_epoch_days()),
                    None => None,
                },
                None => None,
            },
            None => None,
        },
        _ => None,
    }
}

} // verus!
