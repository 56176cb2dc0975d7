//! What holds of dates and their texts.

use crate::calendar::{
    date_text, date_text_is_civil, day_before_year_grows, day_number_in_year,
    days_before_month_table, in_calendar, stamp_at, stamp_text, year_length, CivilDate, Stamp,
    DATETIME_FORMAT, DATE_FORMAT, DAY_1900, FIRST_DAY, LAST_DAY,
};
use crate::text::{decimal, digit, four_digits};
use vstd::prelude::*;

verus! {

/// The calendar has the months from January to December with their usual numbers of
/// days; February has 29 in the years that 4 divides, but for those that 100 divides
/// and 400 does not.
pub proof fn calendar_has_the_usual_dates(year: int, month: int, day: int)
    ensures
        (CivilDate { year, month, day }).valid() <==> {
            &&& 1 <= month <= 12
            &&& 1 <= day <= 31
            &&& day <= 30 || !(month == 4 || month == 6 || month == 9 || month == 11)
            &&& day <= 29 || month != 2
            &&& day <= 28 || month != 2 || (year % 4 == 0 && (year % 100 != 0 || year % 400 == 0))
        },
{
}

/// Days are counted from 1 January of the year 1, without a gap: the next day of a
/// month, the first of the next month after the last of a month, and New Year's Day
/// after 31 December each have the next number.
pub proof fn days_are_counted_one_by_one(c: CivilDate)
    requires
        c.valid(),
    ensures
        (CivilDate { year: 1, month: 1, day: 1 }).day_number() == 1,
        (CivilDate { year: c.year, month: c.month, day: c.day + 1 }).valid() ==> (CivilDate {
            year: c.year,
            month: c.month,
            day: c.day + 1,
        }).day_number() == c.day_number() + 1,
        !(CivilDate { year: c.year, month: c.month, day: c.day + 1 }).valid() && c.month < 12 ==> (
        CivilDate { year: c.year, month: c.month + 1, day: 1 }).day_number() == c.day_number() + 1,
        c.month == 12 && c.day == 31 ==> (CivilDate {
            year: c.year + 1,
            month: 1,
            day: 1,
        }).day_number() == c.day_number() + 1,
{
    days_before_month_table(1);
    days_before_month_table(c.year);
    days_before_month_table(c.year + 1);
    year_length(c.year);
}

/// The days of the years 1 to 9999 are numbered from 1 to 3652059, and 1 January 1900
/// has the number 693596.
pub proof fn four_digit_years_are_numbered(c: CivilDate)
    requires
        c.valid(),
        1 <= c.year <= 9999,
    ensures
        1 <= c.day_number() <= 3_652_059,
        (CivilDate { year: 1900, month: 1, day: 1 }).day_number() == 693_596,
        DAY_1900 == 693_596,
        in_calendar(c.day_number()),
{
    day_number_in_year(c);
    day_before_year_grows(1, c.year);
    day_before_year_grows(c.year + 1, 10_000);
    days_before_month_table(1900);
}

/// The days that can be represented are those from 1 January of the year -262143 to 31
/// December of the year 262142.
pub proof fn calendar_has_its_ends(day: int)
    ensures
        in_calendar(day) <==> (CivilDate { year: -262_143, month: 1, day: 1 }).day_number() <= day
            <= (CivilDate { year: 262_142, month: 12, day: 31 }).day_number(),
        in_calendar(day) <==> -95_746_129 <= day <= 95_745_399,
        FIRST_DAY == -95_746_129,
        LAST_DAY == 95_745_399,
{
    days_before_month_table(-262_143);
    days_before_month_table(262_142);
}

/// A number below ten thousand in four digits has them from the thousands to the ones.
pub proof fn four_digits_of(n: nat)
    requires
        n < 10_000,
    ensures
        four_digits(n) == seq![
            (48 + n / 1000) as char,
            (48 + n / 100 % 10) as char,
            (48 + n / 10 % 10) as char,
            (48 + n % 10) as char,
        ],
        four_digits(n).len() == 4,
{
    let (a, b, c) = (n / 10, n / 100, n / 1000);
    assert(a / 10 == b && b / 10 == c);
    assert(n >= 10 ==> decimal(n) == decimal(a).push(digit((n % 10) as int)));
    assert(a >= 10 ==> decimal(a) == decimal(b).push(digit((a % 10) as int)));
    assert(b >= 10 ==> decimal(b) == decimal(c).push(digit((b % 10) as int)));
    if n < 10 {
        assert(a == 0 && b == 0 && c == 0);
    } else if n < 100 {
        assert(a < 10 && b == 0 && c == 0);
    } else if n < 1000 {
        assert(10 <= a && b < 10 && c == 0);
    } else {
        assert(10 <= a && 10 <= b && c < 10);
    }
    assert(four_digits(n) =~= seq![
        (48 + n / 1000) as char,
        (48 + n / 100 % 10) as char,
        (48 + n / 10 % 10) as char,
        (48 + n % 10) as char,
    ]);
}

/// The text of a date of the years 0 to 9999 has ten characters: the four digits of the
/// year, the two of the month and the two of the day, with hyphens between them.
pub proof fn date_text_has_its_digits(c: CivilDate)
    requires
        c.valid(),
        0 <= c.year <= 9999,
    ensures
        date_text(c.day_number()) == seq![
            (48 + c.year / 1000) as char,
            (48 + c.year / 100 % 10) as char,
            (48 + c.year / 10 % 10) as char,
            (48 + c.year % 10) as char,
            '-',
            (48 + c.month / 10) as char,
            (48 + c.month % 10) as char,
            '-',
            (48 + c.day / 10) as char,
            (48 + c.day % 10) as char,
        ],
        c.text() == date_text(c.day_number()),
{
    date_text_is_civil(c);
    four_digits_of(c.year as nat);
    assert(c.text() =~= seq![
        (48 + c.year / 1000) as char,
        (48 + c.year / 100 % 10) as char,
        (48 + c.year / 10 % 10) as char,
        (48 + c.year % 10) as char,
        '-',
        (48 + c.month / 10) as char,
        (48 + c.month % 10) as char,
        '-',
        (48 + c.day / 10) as char,
        (48 + c.day % 10) as char,
    ]);
}

/// The text of a date outside the years 0 to 9999 begins with a sign, then come the
/// digits of the year, at least four of them, and month and day as ever.
pub proof fn distant_date_text_has_a_sign(c: CivilDate)
    requires
        c.valid(),
    ensures
        c.year > 9999 ==> date_text(c.day_number()) == seq!['+'] + decimal(c.year as nat) + seq![
            '-',
            (48 + c.month / 10) as char,
            (48 + c.month % 10) as char,
            '-',
            (48 + c.day / 10) as char,
            (48 + c.day % 10) as char,
        ],
        c.year < -9999 ==> date_text(c.day_number()) == seq!['-'] + decimal((-c.year) as nat)
            + seq![
            '-',
            (48 + c.month / 10) as char,
            (48 + c.month % 10) as char,
            '-',
            (48 + c.day / 10) as char,
            (48 + c.day % 10) as char,
        ],
        -9999 <= c.year < 0 ==> date_text(c.day_number()) == seq!['-'] + seq![
            (48 + (-c.year) / 1000) as char,
            (48 + (-c.year) / 100 % 10) as char,
            (48 + (-c.year) / 10 % 10) as char,
            (48 + (-c.year) % 10) as char,
            '-',
            (48 + c.month / 10) as char,
            (48 + c.month % 10) as char,
            '-',
            (48 + c.day / 10) as char,
            (48 + c.day % 10) as char,
        ],
{
    date_text_is_civil(c);
    if c.year > 9999 {
        assert(c.text() =~= seq!['+'] + decimal(c.year as nat) + seq![
            '-',
            (48 + c.month / 10) as char,
            (48 + c.month % 10) as char,
            '-',
            (48 + c.day / 10) as char,
            (48 + c.day % 10) as char,
        ]);
    } else if c.year < -9999 {
        assert(c.text() =~= seq!['-'] + decimal((-c.year) as nat) + seq![
            '-',
            (48 + c.month / 10) as char,
            (48 + c.month % 10) as char,
            '-',
            (48 + c.day / 10) as char,
            (48 + c.day % 10) as char,
        ]);
    } else if c.year < 0 {
        four_digits_of((-c.year) as nat);
        assert(c.text() =~= seq!['-'] + seq![
            (48 + (-c.year) / 1000) as char,
            (48 + (-c.year) / 100 % 10) as char,
            (48 + (-c.year) / 10 % 10) as char,
            (48 + (-c.year) % 10) as char,
            '-',
            (48 + c.month / 10) as char,
            (48 + c.month % 10) as char,
            '-',
            (48 + c.day / 10) as char,
            (48 + c.day % 10) as char,
        ]);
    }
}

/// Dates are printed as year, month and day, and points in time with hour, minute and
/// second after them, in the notation of `strftime`.
pub proof fn dates_have_their_formats()
    ensures
        DATE_FORMAT@ == "%Y-%m-%d"@,
        DATETIME_FORMAT@ == "%Y-%m-%d %H:%M:%S"@,
{
}

/// A point in time that lies some nanoseconds after the start of a day is on that day,
/// so many whole seconds and nanoseconds into it; days begun anew are left away.
pub proof fn points_in_time_are_reached_by_nanoseconds(day: int, nanoseconds: int)
    requires
        i32::MIN <= day <= i32::MAX,
        0 <= nanoseconds,
    ensures
        stamp_at(day, nanoseconds).day == day,
        stamp_at(day, nanoseconds).second < 86_400,
        stamp_at(day, nanoseconds).nanosecond < 1_000_000_000,
        exists|whole_days: int|
            0 <= whole_days && nanoseconds == (#[trigger] (whole_days * 86_400) + stamp_at(
                day,
                nanoseconds,
            ).second) * 1_000_000_000 + stamp_at(day, nanoseconds).nanosecond,
{
    let seconds = nanoseconds / 1_000_000_000;
    let whole_days = seconds / 86_400;
    assert(nanoseconds == (whole_days * 86_400 + seconds % 86_400) * 1_000_000_000 + nanoseconds
        % 1_000_000_000);
}

/// The text of a point in time is that of its date, a blank, and the two digits each of
/// the hour, the minute and the second, with colons between them.
pub proof fn stamp_text_has_its_digits(stamp: Stamp, hour: int, minute: int, second: int)
    requires
        0 <= hour < 24,
        0 <= minute < 60,
        0 <= second < 60,
        stamp.second == hour * 3600 + minute * 60 + second,
    ensures
        stamp_text(stamp) == date_text(stamp.day as int) + seq![
            ' ',
            (48 + hour / 10) as char,
            (48 + hour % 10) as char,
            ':',
            (48 + minute / 10) as char,
            (48 + minute % 10) as char,
            ':',
            (48 + second / 10) as char,
            (48 + second % 10) as char,
        ],
{
    assert(stamp.second as int / 3600 == hour);
    assert(stamp.second as int / 60 % 60 == minute);
    assert(stamp.second as int % 60 == second);
    assert(stamp_text(stamp) =~= date_text(stamp.day as int) + seq![
        ' ',
        (48 + hour / 10) as char,
        (48 + hour % 10) as char,
        ':',
        (48 + minute / 10) as char,
        (48 + minute % 10) as char,
        ':',
        (48 + second / 10) as char,
        (48 + second % 10) as char,
    ]);
}

} // verus!
