//! Proleptic Gregorian calendar dates: which `(year, month, day)` triples
//! name a date, and their `%Y-%m-%d` text.

use vstd::prelude::*;
use chrono::Datelike;
use crate::text::{padded_decimal, push_char, push_padded_decimal};

verus! {

pub open spec fn is_leap_year(y: int) -> bool {
    (y % 4 == 0 && y % 100 != 0) || y % 400 == 0
}

pub open spec fn days_in_month(y: int, m: int) -> int {
    if m == 2 {
        if is_leap_year(y) {
            29
        } else {
            28
        }
    } else if m == 4 || m == 6 || m == 9 || m == 11 {
        30
    } else {
        31
    }
}

/// The years a calendar date may carry.
pub open spec fn year_in_range(y: int) -> bool {
    -262143 <= y <= 262142
}

/// Whether `(y, m, d)` is a date of the proleptic Gregorian calendar
/// within the supported years.
pub open spec fn valid_civil_date(y: int, m: int, d: int) -> bool {
    &&& year_in_range(y)
    &&& 1 <= m <= 12
    &&& 1 <= d <= days_in_month(y, m)
}

/// `%Y`: four digits for years 0 to 9999, otherwise a sign and at least
/// four digits.
pub open spec fn year_text(y: int) -> Seq<char> {
    if 0 <= y <= 9999 {
        padded_decimal(y as nat, 4)
    } else if y < 0 {
        seq!['-'] + padded_decimal((-y) as nat, 4)
    } else {
        seq!['+'] + padded_decimal(y as nat, 4)
    }
}

/// `%Y-%m-%d`.
pub open spec fn iso_date_text(y: int, m: int, d: int) -> Seq<char> {
    year_text(y) + seq!['-'] + padded_decimal(m as nat, 2) + seq!['-'] + padded_decimal(
        d as nat,
        2,
    )
}

/// `chrono::NaiveDate::from_ymd_opt(year, month, day)`, of which only
/// whether it names a date is kept.
#[verifier::external_body]
pub(crate) fn chrono_date_exists(year: i32, month: u32, day: u32) -> (r: bool)
    ensures
        r == valid_civil_date(year as int, month as int, day as int),
{
    chrono::NaiveDate::from_ymd_opt(year, month, day).is_some()
}

/// The `%Y-%m-%d` text of a date, or `None` where `(year, month, day)`
/// names no date.
pub fn iso_date(year: i32, month: u32, day: u32) -> (r: Option<String>)
    ensures
        match r {
            Some(t) => valid_civil_date(year as int, month as int, day as int) && t@
                == iso_date_text(year as int, month as int, day as int),
            None => !valid_civil_date(year as int, month as int, day as int),
        },
{
    if !chrono_date_exists(year, month, day) {
        return None;
    }
    let mut t = String::new();
    if 0 <= year && year <= 9999 {
        push_padded_decimal(&mut t, year as u64, 4);
    } else if year < 0 {
        push_char(&mut t, '-');
        let mag: i64 = -(year as i64);
        push_padded_decimal(&mut t, mag as u64, 4);
    } else {
        push_char(&mut t, '+');
        push_padded_decimal(&mut t, year as u64, 4);
    }
    push_char(&mut t, '-');
    push_padded_decimal(&mut t, month as u64, 2);
    push_char(&mut t, '-');
    push_padded_decimal(&mut t, day as u64, 2);
    proof {
        assert(t@ =~= iso_date_text(year as int, month as int, day as int));
    }
    Some(t)
}

/// The number of days from 1970-01-01 to the date `(y, m, d)`, negative
/// before it.
pub open spec fn days_from_civil(y: int, m: int, d: int) -> int {
    let yy = if m <= 2 {
        y - 1
    } else {
        y
    };
    let era = yy / 400;
    let yoe = yy - era * 400;
    let mp = if m > 2 {
        m - 3
    } else {
        m + 9
    };
    let doy = (153 * mp + 2) / 5 + d - 1;
    let doe = yoe * 365 + yoe / 4 - yoe / 100 + doy;
    era * 146097 + doe - 719468
}

/// The day of the week counted from Monday (0) to Sunday (6);
/// 1970-01-01 was a Thursday.
pub open spec fn weekday_from_monday(y: int, m: int, d: int) -> int {
    (days_from_civil(y, m, d) + 3) % 7
}

/// Seconds since 1970-01-01T00:00:00Z of a UTC date and time of day.
pub open spec fn unix_seconds(y: int, m: int, d: int, h: int, mi: int, s: int) -> int {
    days_from_civil(y, m, d) * 86400 + h * 3600 + mi * 60 + s
}

/// `NaiveDate::weekday().num_days_from_monday()` of a date.
#[verifier::external_body]
pub(crate) fn weekday_of(year: i32, month: u32, day: u32) -> (r: u32)
    requires
        valid_civil_date(year as int, month as int, day as int),
    ensures
        r as int == weekday_from_monday(year as int, month as int, day as int),
{
    chrono::NaiveDate::from_ymd_opt(year, month, day).unwrap().weekday().num_days_from_monday()
}

/// `NaiveDate::and_hms_opt(hour, minute, second)` followed by
/// `and_utc().timestamp()`: `None` where the time of day is not one.
#[verifier::external_body]
pub(crate) fn utc_timestamp(
    year: i32,
    month: u32,
    day: u32,
    hour: u32,
    minute: u32,
    second: u32,
) -> (r: Option<i64>)
    requires
        valid_civil_date(year as int, month as int, day as int),
    ensures
        hour < 24 && minute < 60 && second < 60 ==> r == Some(
            unix_seconds(
                year as int,
                month as int,
                day as int,
                hour as int,
                minute as int,
                second as int,
            ) as i64,
        ),
        !(hour < 24 && minute < 60 && second < 60) ==> r is None,
{
    let date = chrono::NaiveDate::from_ymd_opt(year, month, day).unwrap();
    match date.and_hms_opt(hour, minute, second) {
        Some(t) => Some(t.and_utc().timestamp()),
        None => None,
    }
}

/// The number of days in a year.
pub open spec fn year_len(y: int) -> int {
    if is_leap_year(y) {
        366
    } else {
        365
    }
}

/// The days of the year before the first of month `m`.
pub open spec fn days_before_month(y: int, m: int) -> int
    decreases m,
{
    if m <= 1 {
        0
    } else {
        days_before_month(y, m - 1) + days_in_month(y, m - 1)
    }
}

pub proof fn lemma_days_before_december(y: int)
    ensures
        days_before_month(y, 12) + 31 == year_len(y),
{
    reveal_with_fuel(days_before_month, 12);
}

/// Whether a year is a leap year, for any year a date may carry.
pub fn leap_year(year: i32) -> (r: bool)
    requires
        year_in_range(year as int),
    ensures
        r == is_leap_year(year as int),
{
    let shifted: i64 = year as i64 + 400000;
    proof {
        let y = year as int;
        vstd::arithmetic::div_mod::lemma_mod_multiples_vanish(100000, y, 4);
        vstd::arithmetic::div_mod::lemma_mod_multiples_vanish(4000, y, 100);
        vstd::arithmetic::div_mod::lemma_mod_multiples_vanish(1000, y, 400);
        assert(4 * 100000 + y == shifted);
        assert(100 * 4000 + y == shifted);
        assert(400 * 1000 + y == shifted);
    }
    (shifted % 4 == 0 && shifted % 100 != 0) || shifted % 400 == 0
}

/// The number of days in a month of a year.
pub fn month_days(year: i32, month: u32) -> (r: u32)
    requires
        year_in_range(year as int),
    ensures
        r as int == days_in_month(year as int, month as int),
{
    if month == 2 {
        if leap_year(year) {
            29
        } else {
            28
        }
    } else if month == 4 || month == 6 || month == 9 || month == 11 {
        30
    } else {
        31
    }
}

} // verus!
