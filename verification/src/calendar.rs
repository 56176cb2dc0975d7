//! Dates of the proleptic Gregorian calendar and their texts.
//!
//! A date is a day number: 1 January of the year 1 is day 1. `chrono` does the
//! calendar arithmetic at run time; the spec functions here say what its answers
//! mean.

use crate::text::{four_digits, two_digits};
use chrono::{Datelike, NaiveDate, NaiveDateTime, NaiveTime, Timelike};
use tiberius::FromSqlOwned;
use vstd::prelude::*;

verus! {

/// The earliest day that `chrono` can represent, 1 January of the year -262143.
pub const FIRST_DAY: i32 = -95_746_129;

/// The latest day that `chrono` can represent, 31 December of the year 262142.
pub const LAST_DAY: i32 = 95_745_399;

/// 1 January 1900, from which `datetime` counts its days.
pub const DAY_1900: i32 = 693_596;

/// The format of a date, in the notation of `strftime`.
pub const DATE_FORMAT: &'static str = "%Y-%m-%d";

/// The format of a point in time, in the notation of `strftime`.
pub const DATETIME_FORMAT: &'static str = "%Y-%m-%d %H:%M:%S";

/// A date of the proleptic Gregorian calendar; the year before 1 is 0.
pub struct CivilDate {
    pub year: int,
    pub month: int,
    pub day: int,
}

/// Whether a year has 366 days.
pub open spec fn is_leap_year(year: int) -> bool {
    year % 4 == 0 && (year % 100 != 0 || year % 400 == 0)
}

/// The number of days of a month.
pub open spec fn days_of_month(year: int, month: int) -> int {
    if month == 2 {
        if is_leap_year(year) {
            29
        } else {
            28
        }
    } else if month == 4 || month == 6 || month == 9 || month == 11 {
        30
    } else {
        31
    }
}

/// The number of days of a year that lie before a month of it.
pub open spec fn days_before_month(year: int, month: int) -> int
    decreases month,
{
    if month <= 1 {
        0
    } else {
        days_before_month(year, month - 1) + days_of_month(year, month - 1)
    }
}

/// The number of the last day before a year.
pub open spec fn day_before_year(year: int) -> int {
    365 * (year - 1) + (year - 1) / 4 - (year - 1) / 100 + (year - 1) / 400
}

impl CivilDate {
    /// Whether the calendar has this date.
    pub open spec fn valid(self) -> bool {
        1 <= self.month <= 12 && 1 <= self.day <= days_of_month(self.year, self.month)
    }

    /// The number of this day; 1 January of the year 1 is day 1.
    pub open spec fn day_number(self) -> int {
        day_before_year(self.year) + days_before_month(self.year, self.month) + self.day
    }

    /// `YYYY-MM-DD`, with a sign before the year where it lies outside 0 to 9999.
    pub open spec fn text(self) -> Seq<char> {
        year_text(self.year) + seq!['-'] + two_digits(self.month) + seq!['-'] + two_digits(self.day)
    }
}

/// A year in at least four digits, with a sign where it lies outside 0 to 9999.
pub open spec fn year_text(year: int) -> Seq<char> {
    if 0 <= year <= 9999 {
        four_digits(year as nat)
    } else if year > 9999 {
        seq!['+'] + four_digits(year as nat)
    } else {
        seq!['-'] + four_digits((-year) as nat)
    }
}

/// Whether `chrono` can represent a day.
pub open spec fn in_calendar(day: int) -> bool {
    FIRST_DAY <= day <= LAST_DAY
}

/// The text of the date with a day number.
pub open spec fn date_text(day: int) -> Seq<char> {
    (choose|c: CivilDate| #[trigger] c.valid() && c.day_number() == day).text()
}

/// `HH:MM:SS` of a second of the day.
pub open spec fn time_text(second: int) -> Seq<char> {
    two_digits(second / 3600) + seq![':'] + two_digits(second / 60 % 60) + seq![':'] + two_digits(
        second % 60,
    )
}

/// The text of a point in time, to the second.
pub open spec fn stamp_text(stamp: Stamp) -> Seq<char> {
    date_text(stamp.day as int) + seq![' '] + time_text(stamp.second as int)
}

/// A point in time: a day, a second of that day, and a part of that second.
#[derive(Clone, Copy)]
pub struct Stamp {
    pub day: i32,
    pub second: u32,
    pub nanosecond: u32,
}

/// The point that lies a number of nanoseconds after the start of a day, reduced
/// to that day where they reach beyond it.
pub open spec fn stamp_at(day: int, nanoseconds: int) -> Stamp {
    Stamp {
        day: day as i32,
        second: (nanoseconds / 1_000_000_000 % 86_400) as u32,
        nanosecond: (nanoseconds % 1_000_000_000) as u32,
    }
}

/// Ten to the power of `n`.
pub open spec fn pow10(n: nat) -> nat
    decreases n,
{
    if n == 0 {
        1
    } else {
        10 * pow10((n - 1) as nat)
    }
}

/// Ten to the power of `n`, for the powers that a time scale can ask for.
pub fn power_of_ten(n: u8) -> (p: u64)
    requires
        n <= 9,
    ensures
        p == pow10(n as nat),
        1 <= p <= 1_000_000_000,
{
    reveal_with_fuel(pow10, 10);
    match n {
        0 => 1,
        1 => 10,
        2 => 100,
        3 => 1_000,
        4 => 10_000,
        5 => 100_000,
        6 => 1_000_000,
        7 => 10_000_000,
        8 => 100_000_000,
        _ => 1_000_000_000,
    }
}

/// Reads a `datetime` with tiberius' `FromSqlOwned` for `chrono::NaiveDateTime`.
///
/// The value counts days from 1 January 1900 and three-hundredths of a second from
/// midnight; what is claimed is that the point in time read is that many days after
/// that date and that many parts of a second into the day, cut to whole nanoseconds.
/// Days that `chrono` cannot represent make the call panic and are left out.
#[verifier::external_body]
pub(crate) fn datetime_from_sql(days: i32, fragments: u32) -> (stamp: Option<Stamp>)
    requires
        in_calendar(DAY_1900 + days),
    ensures
        stamp == Some(stamp_at(DAY_1900 + days, fragments * 1_000_000_000 / 300)),
{
    let value = tiberius::time::DateTime::new(days, fragments);
    let read = NaiveDateTime::from_sql_owned(tiberius::ColumnData::DateTime(Some(value)));
    read.ok().flatten().map(|t| Stamp {
        day: t.num_days_from_ce(),
        second: t.num_seconds_from_midnight(),
        nanosecond: t.nanosecond(),
    })
}

/// Reads a `datetime2` with tiberius' `FromSqlOwned` for `chrono::NaiveDateTime`.
///
/// The value counts days from 1 January of the year 1 and, from midnight, increments
/// of ten to the power of minus `scale` seconds; what is claimed is that the point in
/// time read lies there. Days that take more than three bytes, scales above nine and
/// times that overflow a signed 64-bit count of nanoseconds are left out: the
/// arithmetic of the call fails on them.
#[verifier::external_body]
pub(crate) fn datetime2_from_sql(days: u32, increments: u64, scale: u8) -> (stamp: Option<Stamp>)
    requires
        days < 0x100_0000,
        scale <= 9,
        increments * pow10((9 - scale) as nat) <= i64::MAX,
    ensures
        stamp == Some(stamp_at(1 + days, increments * pow10((9 - scale) as nat))),
{
    let date = tiberius::time::Date::new(days);
    let value = tiberius::time::DateTime2::new(date, tiberius::time::Time::new(increments, scale));
    let read = NaiveDateTime::from_sql_owned(tiberius::ColumnData::DateTime2(Some(value)));
    read.ok().flatten().map(|t| Stamp {
        day: t.num_days_from_ce(),
        second: t.num_seconds_from_midnight(),
        nanosecond: t.nanosecond(),
    })
}

/// Reads a `date` with tiberius' `FromSqlOwned` for `chrono::NaiveDate`.
///
/// The value counts days from 1 January of the year 1; what is claimed is that the
/// day read is that many days later. Counts that take more than three bytes make the
/// value's constructor panic and are left out.
#[verifier::external_body]
pub(crate) fn date_from_sql(days: u32) -> (day: Option<i32>)
    requires
        days < 0x100_0000,
    ensures
        day == Some((1 + days) as i32),
{
    let value = tiberius::time::Date::new(days);
    let read = NaiveDate::from_sql_owned(tiberius::ColumnData::Date(Some(value)));
    read.ok().flatten().map(|d| d.num_days_from_ce())
}

/// Prints a point in time with `chrono::NaiveDateTime::format`.
///
/// What is claimed is the meaning that `chrono` documents for the specifiers of
/// `DATETIME_FORMAT`: year, month and day of the Gregorian calendar, then hour, minute
/// and second in two digits each.
#[verifier::external_body]
pub(crate) fn format_datetime(stamp: Stamp, format: &str) -> (s: String)
    requires
        in_calendar(stamp.day as int),
        stamp.second < 86_400,
        stamp.nanosecond < 1_000_000_000,
        format@ == DATETIME_FORMAT@,
    ensures
        s@ == stamp_text(stamp),
{
    let day = NaiveDate::from_num_days_from_ce_opt(stamp.day).unwrap();
    let time = NaiveTime::from_num_seconds_from_midnight_opt(stamp.second, stamp.nanosecond).unwrap();
    NaiveDateTime::new(day, time).format(format).to_string()
}

/// Prints a date with `chrono::NaiveDate::format`.
///
/// What is claimed is the meaning that `chrono` documents for the specifiers of
/// `DATE_FORMAT`: year, month and day of the Gregorian calendar.
#[verifier::external_body]
pub(crate) fn format_date(day: i32, format: &str) -> (s: String)
    requires
        in_calendar(day as int),
        format@ == DATE_FORMAT@,
    ensures
        s@ == date_text(day as int),
{
    NaiveDate::from_num_days_from_ce_opt(day).unwrap().format(format).to_string()
}

pub(crate) proof fn days_before_month_table(year: int)
    ensures
        days_before_month(year, 1) == 0,
        days_before_month(year, 2) == 31,
        forall|m: int|
            2 <= m <= 12 ==> #[trigger] days_before_month(year, m) == days_before_month(year, m - 1)
                + days_of_month(year, m - 1),
        days_before_month(year, 12) + 31 == if is_leap_year(year) {
            366int
        } else {
            365int
        },
{
    reveal_with_fuel(days_before_month, 13);
}

proof fn days_before_month_grows(year: int, m: int, n: int)
    requires
        1 <= m < n <= 12,
    ensures
        days_before_month(year, m) + days_of_month(year, m) <= days_before_month(year, n),
    decreases n,
{
    if m < n - 1 {
        days_before_month_grows(year, m, n - 1);
    }
}

pub(crate) proof fn year_length(year: int)
    ensures
        day_before_year(year + 1) == day_before_year(year) + if is_leap_year(year) {
            366int
        } else {
            365int
        },
{
}

pub(crate) proof fn day_before_year_grows(y: int, z: int)
    requires
        y <= z,
    ensures
        day_before_year(y) <= day_before_year(z),
{
}

pub(crate) proof fn day_number_in_year(c: CivilDate)
    requires
        c.valid(),
    ensures
        day_before_year(c.year) < c.day_number() <= day_before_year(c.year + 1),
{
    days_before_month_table(c.year);
    year_length(c.year);
    if c.month < 12 {
        days_before_month_grows(c.year, c.month, 12);
    }
    if c.month > 1 {
        days_before_month_grows(c.year, 1, c.month);
    }
}

/// No two dates of the calendar share a day number.
pub proof fn day_number_is_injective(a: CivilDate, b: CivilDate)
    requires
        a.valid(),
        b.valid(),
    ensures
        a.day_number() == b.day_number() ==> a == b,
{
    if a.day_number() == b.day_number() {
        day_number_in_year(a);
        day_number_in_year(b);
        if a.year < b.year {
            day_before_year_grows(a.year + 1, b.year);
        }
        if b.year < a.year {
            day_before_year_grows(b.year + 1, a.year);
        }
        assert(a.year == b.year);
        if a.month < b.month {
            days_before_month_grows(a.year, a.month, b.month);
        }
        if b.month < a.month {
            days_before_month_grows(a.year, b.month, a.month);
        }
    }
}

/// The date after a date.
spec fn next_date(c: CivilDate) -> CivilDate {
    if c.day < days_of_month(c.year, c.month) {
        CivilDate { day: c.day + 1, ..c }
    } else if c.month < 12 {
        CivilDate { year: c.year, month: c.month + 1, day: 1 }
    } else {
        CivilDate { year: c.year + 1, month: 1, day: 1 }
    }
}

/// The date before a date.
spec fn previous_date(c: CivilDate) -> CivilDate {
    if c.day > 1 {
        CivilDate { day: c.day - 1, ..c }
    } else if c.month > 1 {
        CivilDate { year: c.year, month: c.month - 1, day: days_of_month(c.year, c.month - 1) }
    } else {
        CivilDate { year: c.year - 1, month: 12, day: 31 }
    }
}

/// Every day number is that of some date of the calendar.
pub proof fn day_number_is_surjective(day: int) -> (c: CivilDate)
    ensures
        c.valid(),
        c.day_number() == day,
    decreases
            if day < 1 {
                1 - day
            } else {
                day - 1
            },
{
    if day == 1 {
        days_before_month_table(1);
        CivilDate { year: 1, month: 1, day: 1 }
    } else if day > 1 {
        let b = day_number_is_surjective(day - 1);
        days_before_month_table(b.year);
        days_before_month_table(b.year + 1);
        year_length(b.year);
        next_date(b)
    } else {
        let b = day_number_is_surjective(day + 1);
        days_before_month_table(b.year);
        days_before_month_table(b.year - 1);
        year_length(b.year - 1);
        previous_date(b)
    }
}

/// Every date of the calendar prints as itself: the text of its day number is its
/// year, month and day.
pub proof fn date_text_is_civil(c: CivilDate)
    requires
        c.valid(),
    ensures
        date_text(c.day_number()) == c.text(),
{
    let chosen = choose|d: CivilDate| #[trigger] d.valid() && d.day_number() == c.day_number();
    day_number_is_injective(c, chosen);
}

} // verus!
