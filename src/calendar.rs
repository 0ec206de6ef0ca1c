use vstd::prelude::*;

use chrono::{Datelike, Timelike};

verus! {

/// Leap years of the proleptic Gregorian calendar.
pub open spec fn is_leap_year(y: int) -> bool {
    y % 4 == 0 && (y % 100 != 0 || y % 400 == 0)
}

pub open spec fn days_in_month(y: int, m: int) -> int {
    if m == 2 {
        if is_leap_year(y) {
            29
        } else {
            28
        }
    } else if m == 4 || m == 6 || m == 9 || m == 11 {
        30
    } else {
        31
    }
}

/// Year, month and day form a date of the proleptic Gregorian calendar.
pub open spec fn valid_date(y: int, m: int, d: int) -> bool {
    1 <= m <= 12 && 1 <= d <= days_in_month(y, m)
}

/// Days of the year `y` before the first day of month `m`.
pub open spec fn days_before_month(y: int, m: int) -> int
    decreases m,
{
    if m <= 1 {
        0
    } else {
        days_before_month(y, m - 1) + days_in_month(y, m - 1)
    }
}

/// Days before the first day of year `y`, counted from 0001-01-01.
pub open spec fn days_before_year(y: int) -> int {
    365 * (y - 1) + (y - 1) / 4 - (y - 1) / 100 + (y - 1) / 400
}

/// The day number of a date, with 0001-01-01 as day one.
pub open spec fn days_from_ce(y: int, m: int, d: int) -> int {
    days_before_year(y) + days_before_month(y, m) + d
}

/// The day number of 1970-01-01, with 0001-01-01 as day one.
pub const EPOCH_DAYS_FROM_CE: i32 = 719163;

/// Signed days from 1970-01-01 to a date.
pub open spec fn epoch_days(y: int, m: int, d: int) -> int {
    days_from_ce(y, m, d) - EPOCH_DAYS_FROM_CE
}

/// Hour, minute, second and microsecond form a time of day; on second 59 the
/// microseconds may run into a second leap second.
pub open spec fn valid_time(h: int, mi: int, s: int, us: int) -> bool {
    &&& 0 <= h < 24
    &&& 0 <= mi < 60
    &&& 0 <= s < 60
    &&& 0 <= us
    &&& (us < 1_000_000 || (s == 59 && us < 2_000_000))
}

pub open spec fn seconds_of_day(h: int, mi: int, s: int) -> int {
    h * 3600 + mi * 60 + s
}

pub const MICROS_PER_DAY: i64 = 86_400_000_000;

/// Microseconds from 1970-01-01T00:00:00 to a date and time, with no time zone.
pub open spec fn epoch_micros(y: int, m: int, d: int, h: int, mi: int, s: int, us: int) -> int {
    epoch_days(y, m, d) * MICROS_PER_DAY + seconds_of_day(h, mi, s) * 1_000_000 + us
}

/// Relies on chrono's `NaiveDate::from_ymd_opt`, which gives a date exactly for
/// valid proleptic Gregorian dates (its year range reaches far past `u16`), and
/// on `Datelike::num_days_from_ce`, which numbers days with 0001-01-01 as day one.
#[verifier::external_body]
fn day_number_from_ce(year: u16, month: u8, day: u8) -> (r: Option<i32>)
    ensures
        r is Some <==> valid_date(year as int, month as int, day as int),
        r is Some ==> r->Some_0 == days_from_ce(year as int, month as int, day as int),
{
    match chrono::NaiveDate::from_ymd_opt(year as i32, month as u32, day as u32) {
        Some(date) => Some(date.num_days_from_ce()),
        None => None,
    }
}

/// Relies on chrono's `NaiveTime::from_hms_micro_opt`, which refuses an hour over
/// 23, a minute or second over 59, and a second's worth of microseconds or more
/// except on second 59 (a leap second, under two seconds in all), and on
/// `Timelike::num_seconds_from_midnight`.
#[verifier::external_body]
fn time_of_day(hour: u8, minute: u8, second: u8, micro: u32) -> (r: Option<u32>)
    ensures
        r is Some <==> valid_time(hour as int, minute as int, second as int, micro as int),
        r is Some ==> r->Some_0 == seconds_of_day(hour as int, minute as int, second as int),
{
    match chrono::NaiveTime::from_hms_micro_opt(hour as u32, minute as u32, second as u32, micro) {
        Some(time) => Some(time.num_seconds_from_midnight()),
        None => None,
    }
}

proof fn lemma_days_before_month_bounds(y: int, m: int)
    requires
        1 <= m <= 12,
    ensures
        0 <= days_before_month(y, m) <= 31 * (m - 1),
    decreases m,
{
    if m > 1 {
        lemma_days_before_month_bounds(y, m - 1);
    }
}

/// Day numbers of dates with years in `u16` stay well inside `i32`.
proof fn lemma_days_from_ce_bounds(y: int, m: int, d: int)
    requires
        0 <= y <= 65535,
        valid_date(y, m, d),
    ensures
        -365 <= days_from_ce(y, m, d) <= 24_000_000,
{
    lemma_days_before_month_bounds(y, m);
    let k = y - 1;
    if k >= 0 {
        assert(0 <= k / 4 <= k) by (nonlinear_arith)
            requires
                k >= 0,
        ;
        assert(0 <= k / 100 <= k / 4) by (nonlinear_arith)
            requires
                k >= 0,
        ;
        assert(0 <= k / 400 <= k) by (nonlinear_arith)
            requires
                k >= 0,
        ;
    } else {
        assert(k == -1);
        assert(days_before_year(y) == -366);
    }
}

/// Signed days since 1970-01-01 of a date, or `None` where the fields do not
/// form a calendar date.
pub fn days_since_epoch(year: u16, month: u8, day: u8) -> (r: Option<i32>)
    ensures
        r is Some <==> valid_date(year as int, month as int, day as int),
        r is Some ==> r->Some_0 == epoch_days(year as int, month as int, day as int),
{
    match day_number_from_ce(year, month, day) {
        Some(n) => {
            proof {
                lemma_days_from_ce_bounds(year as int, month as int, day as int);
            }
            Some(n - EPOCH_DAYS_FROM_CE)
        },
        None => None,
    }
}

/// Microseconds since 1970-01-01T00:00:00 of a date and time, or `None` where
/// the fields do not form a valid date and time.
pub fn micros_since_epoch(year: u16, month: u8, day: u8, hour: u8, minute: u8, second: u8, micro: u32) -> (r:
    Option<i64>)
    ensures
        r is Some <==> valid_date(year as int, month as int, day as int) && valid_time(
            hour as int,
            minute as int,
            second as int,
            micro as int,
        ),
        r is Some ==> r->Some_0 == epoch_micros(
            year as int,
            month as int,
            day as int,
            hour as int,
            minute as int,
            second as int,
            micro as int,
        ),
{
    let days = match days_since_epoch(year, month, day) {
        Some(days) => days,
        None => {
            return None;
        },
    };
    let secs = match time_of_day(hour, minute, second, micro) {
        Some(secs) => secs,
        None => {
            return None;
        },
    };
    proof {
        lemma_days_from_ce_bounds(year as int, month as int, day as int);
        let dd = days as int;
        assert(-1_000_000 <= dd <= 24_000_000);
        assert(-1_000_000 * 86_400_000_000 <= dd * 86_400_000_000 <= 24_000_000 * 86_400_000_000)
            by (nonlinear_arith)
            requires
                -1_000_000 <= dd <= 24_000_000,
        ;
    }
    let day_micros: i64 = days as i64 * MICROS_PER_DAY;
    let sec_micros: i64 = secs as i64 * 1_000_000;
    Some(day_micros + sec_micros + micro as i64)
}

/// The epoch itself is day zero, the next day is day one and the day before is
/// day minus one.
pub proof fn lemma_epoch_days()
    ensures
        epoch_days(1970, 1, 1) == 0,
        epoch_days(1970, 1, 2) == 1,
        epoch_days(1969, 12, 31) == -1,
{
    reveal_with_fuel(days_before_month, 12);
    assert(days_before_year(1970) == 719162);
    assert(days_before_year(1969) == 718797);
}

} // verus!
