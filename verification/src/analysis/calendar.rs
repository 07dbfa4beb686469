//! Calendar days as day numbers, and the instants at their edges.

use vstd::prelude::*;

verus! {

/// The day number of January 1, 1970.
pub const EPOCH_DAY: i32 = 719_163;

/// The number of seconds in a day.
pub const SECONDS_PER_DAY: i64 = 86_400;

/// The weekday of a day, from 1 for Monday to 7 for Sunday. Day 1 is a
/// Monday.
pub open spec fn weekday_number(day: int) -> int {
    (day - 1) % 7 + 1
}

/// Computes `weekday_number`.
pub fn weekday(day: i32) -> (r: u32)
    ensures
        r == weekday_number(day as int),
        1 <= r <= 7,
{
    let shifted: i64 = day as i64 - 1;
    let rem: i64 = shifted % 7;
    let folded: i64 = if rem < 0 { rem + 7 } else { rem };
    (folded + 1) as u32
}

/// The first day that the engine works with: January 1 of year 1.
pub const MIN_DAY: i32 = 1;

/// The last day that the engine works with: December 31 of year 9999.
pub const MAX_DAY: i32 = 3_652_059;

/// The day is one that the engine works with.
pub open spec fn is_calendar_day(day: int) -> bool {
    MIN_DAY <= day <= MAX_DAY
}

/// The day lies in the span on which the calendar is asked: the engine's
/// days and a margin of some centuries around them.
pub open spec fn in_calendar_reach(day: int) -> bool {
    -4_000_000 <= day <= 4_000_000
}

/// The day of the month on which a day falls, from 1.
pub uninterp spec fn month_day_of(day: int) -> int;

/// The day of the year on which a day falls, from 1.
pub uninterp spec fn year_day_of(day: int) -> int;

/// Calls `chrono::NaiveDate::from_num_days_from_ce_opt` and, on the date it
/// gives, `chrono::Datelike::day`. Claimed: a day within four million days
/// of day 0 is a date of the calendar, and the day of the month is a number
/// from 1 to 31 that depends on the day alone.
#[verifier::external_body]
fn day_of_month(day: i32) -> (r: Option<u32>)
    ensures
        in_calendar_reach(day as int) ==> r is Some,
        r is Some ==> r->0 == month_day_of(day as int) && 1 <= r->0 <= 31,
{
    match chrono::NaiveDate::from_num_days_from_ce_opt(day) {
        Some(d) => Some(chrono::Datelike::day(&d)),
        None => None,
    }
}

/// Calls `chrono::NaiveDate::from_num_days_from_ce_opt` and, on the date it
/// gives, `chrono::Datelike::ordinal`. Claimed: a day within four million
/// days of day 0 is a date of the calendar, and the day of the year is a
/// number from 1 to 366 that depends on the day alone.
#[verifier::external_body]
fn day_of_year(day: i32) -> (r: Option<u32>)
    ensures
        in_calendar_reach(day as int) ==> r is Some,
        r is Some ==> r->0 == year_day_of(day as int) && 1 <= r->0 <= 366,
{
    match chrono::NaiveDate::from_num_days_from_ce_opt(day) {
        Some(d) => Some(chrono::Datelike::ordinal(&d)),
        None => None,
    }
}

/// The first day of the month in which a day falls.
pub open spec fn month_start(day: int) -> int {
    day - (month_day_of(day) - 1)
}

/// The first day of the year in which a day falls.
pub open spec fn year_start(day: int) -> int {
    day - (year_day_of(day) - 1)
}

/// Computes `month_start`. The month begins at most 30 days before the day.
pub fn first_of_month(day: i32) -> (r: i32)
    requires
        in_calendar_reach(day as int),
    ensures
        r == month_start(day as int),
        day - 30 <= r <= day,
{
    match day_of_month(day) {
        Some(m) => day - (m as i32 - 1),
        None => day,
    }
}

/// Computes `year_start`. The year begins at most 365 days before the day.
pub fn first_of_year(day: i32) -> (r: i32)
    requires
        in_calendar_reach(day as int),
    ensures
        r == year_start(day as int),
        day - 365 <= r <= day,
{
    match day_of_year(day) {
        Some(o) => day - (o as i32 - 1),
        None => day,
    }
}

/// The latest day from Monday to Friday that is not after `day`.
pub open spec fn weekday_at_or_before(day: int) -> int {
    if weekday_number(day) == 7 {
        day - 2
    } else if weekday_number(day) == 6 {
        day - 1
    } else {
        day
    }
}

/// Steps back from a Saturday or Sunday, day by day, until a day from Monday
/// to Friday is reached. The result is not after `day`, and no day between
/// the two is a weekday.
pub fn last_weekday(day: i32) -> (r: i32)
    requires
        day >= i32::MIN + 2,
    ensures
        r == weekday_at_or_before(day as int),
        1 <= weekday_number(r as int) <= 5,
        day - 2 <= r <= day,
        forall|d: int| r < d <= day ==> weekday_number(d) > 5,
{
    let mut current: i32 = day;
    while weekday(current) > 5
        invariant
            day - 2 <= current <= day,
            day >= i32::MIN + 2,
            current == day || weekday_number(day as int) > 5,
            current == day - 1 ==> weekday_number(current as int) != 7,
            current == day - 2 ==> weekday_number(current as int) == 5,
            forall|d: int| current < d <= day ==> weekday_number(d) > 5,
        decreases weekday_number(current as int),
    {
        current = current - 1;
    }
    current
}

/// The last weekday before a day.
pub fn previous_weekday(day: i32) -> (r: i32)
    requires
        day >= i32::MIN + 3,
    ensures
        r == weekday_at_or_before(day - 1),
        1 <= weekday_number(r as int) <= 5,
        day - 3 <= r < day,
{
    last_weekday(day - 1)
}

/// Noon UTC of a day, as an instant.
pub open spec fn noon_of(day: int) -> int {
    (day - EPOCH_DAY) * SECONDS_PER_DAY + 43_200
}

/// Computes `noon_of`.
pub fn noon_utc(day: i32) -> (r: i64)
    ensures
        r == noon_of(day as int),
{
    (day as i64 - EPOCH_DAY as i64) * SECONDS_PER_DAY + 43_200
}

/// The day on which an instant falls in UTC.
pub open spec fn day_of(instant: int) -> int {
    instant / (SECONDS_PER_DAY as int) + EPOCH_DAY
}

/// Computes `day_of`.
pub fn utc_day(instant: i64) -> (r: i32)
    requires
        -100_000_000_000_000 <= instant <= 100_000_000_000_000,
    ensures
        r == day_of(instant as int),
{
    let q: i64 = instant / SECONDS_PER_DAY;
    let rem: i64 = instant % SECONDS_PER_DAY;
    let floor: i64 = if rem < 0 { q - 1 } else { q };
    (floor + EPOCH_DAY as i64) as i32
}

} // verus!
