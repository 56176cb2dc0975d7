//! Cells and columns of a query result, and the text of a cell.

use crate::calendar::{
    date_from_sql, date_text, datetime2_from_sql, datetime_from_sql, format_date, format_datetime,
    date_text_is_civil, in_calendar, pow10, power_of_ten, stamp_at, stamp_text, CivilDate,
    DATETIME_FORMAT, DATE_FORMAT, DAY_1900, FIRST_DAY, LAST_DAY,
};
use crate::text::{
    bool_text, bool_to_string, hex_digits, integer_to_string, signed_decimal,
    signed_decimal_is_not_empty, two_digits,
};
use polars::prelude::{Float32Type, Float64Type, PolarsNumericType};
use std::borrow::Cow;
use vstd::prelude::*;

verus! {

/// A `datetime`: days since 1 January 1900, and three-hundredths of a second since
/// midnight.
#[derive(Clone, Copy)]
pub struct DateTime {
    pub days: i32,
    pub seconds_fragments: u32,
}

/// A `datetime2`: days since 1 January of the year 1, and the time since midnight in
/// increments of ten to the power of minus `scale` seconds.
#[derive(Clone, Copy)]
pub struct DateTime2 {
    pub days: u32,
    pub increments: u64,
    pub scale: u8,
}

/// A value of a query result, as the wire protocol delivers it; `None` is `NULL`.
///
/// Floating-point values are held by their IEEE 754 bit patterns, and a `Guid` by
/// the big-endian number of its sixteen bytes. The variants without a field stand
/// for types of which nothing but the type is ever looked at.
pub enum ColumnData<'a> {
    U8(Option<u8>),
    I16(Option<i16>),
    I32(Option<i32>),
    I64(Option<i64>),
    F32(Option<u32>),
    F64(Option<u64>),
    Bit(Option<bool>),
    String(Option<Cow<'a, str>>),
    Guid(Option<u128>),
    Binary,
    Numeric,
    Xml,
    DateTime(Option<DateTime>),
    SmallDateTime,
    Time,
    /// Days since 1 January of the year 1.
    Date(Option<u32>),
    DateTime2(Option<DateTime2>),
    DateTimeOffset,
}

/// A column of a query result on its way to a polars `Series`.
pub struct TiberiusColumn<'a> {
    pub name: String,
    pub data: Vec<ColumnData<'a>>,
}

/// A text that is not empty.
pub struct Printed {
    pub first: char,
    pub rest: Seq<char>,
}

impl Printed {
    /// The text.
    pub open spec fn text(self) -> Seq<char> {
        seq![self.first] + self.rest
    }
}

/// What the standard library prints for the 32-bit floating-point number with these
/// bits.
pub uninterp spec fn f32_printed(bits: u32) -> Printed;

/// What the standard library prints for the 64-bit floating-point number with these
/// bits.
pub uninterp spec fn f64_printed(bits: u64) -> Printed;

/// Prints a 32-bit floating-point number with its `to_string`.
///
/// The number is handed over by its bits. The shortest decimal text that reads back
/// as that number is not described here, only named: `f32_printed`. All that is
/// claimed of it is that it depends on the bits alone and is not empty.
#[verifier::external_body]
fn f32_to_string(bits: u32) -> (s: String)
    ensures
        s@ == f32_printed(bits).text(),
{
    <<Float32Type as PolarsNumericType>::Native>::from_bits(bits).to_string()
}

/// Prints a 64-bit floating-point number with its `to_string`.
///
/// The number is handed over by its bits. The shortest decimal text that reads back
/// as that number is not described here, only named: `f64_printed`. All that is
/// claimed of it is that it depends on the bits alone and is not empty.
#[verifier::external_body]
fn f64_to_string(bits: u64) -> (s: String)
    ensures
        s@ == f64_printed(bits).text(),
{
    <<Float64Type as PolarsNumericType>::Native>::from_bits(bits).to_string()
}

/// A GUID in groups of eight, four, four, four and twelve lower-case hexadecimal
/// digits, with hyphens between them.
pub open spec fn guid_text(guid: u128) -> Seq<char> {
    let digits = hex_digits(guid as nat, 32);
    digits.subrange(0, 8) + seq!['-'] + digits.subrange(8, 12) + seq!['-'] + digits.subrange(12, 16)
        + seq!['-'] + digits.subrange(16, 20) + seq!['-'] + digits.subrange(20, 32)
}

/// Prints a GUID with the `to_string` of `uuid::Uuid`, which tiberius re-exports.
///
/// What is claimed is the hyphenated lower-case form that the crate documents.
#[verifier::external_body]
fn guid_to_string(guid: u128) -> (s: String)
    ensures
        s@ == guid_text(guid),
{
    tiberius::Uuid::from_u128(guid).to_string()
}

/// Whether the time of a `datetime2` can be counted in signed 64-bit nanoseconds, and
/// its date in three bytes.
pub open spec fn datetime2_in_range(d: DateTime2) -> bool {
    &&& d.days < 0x100_0000
    &&& d.scale <= 9
    &&& d.increments * pow10((9 - d.scale) as nat) <= i64::MAX
}

/// Whether a cell has a text: all have but the dates that lie outside the calendar.
pub open spec fn renderable(data: ColumnData<'_>) -> bool {
    match data {
        ColumnData::DateTime(Some(d)) => in_calendar(DAY_1900 + d.days),
        ColumnData::DateTime2(Some(d)) => datetime2_in_range(d),
        ColumnData::Date(Some(d)) => d < 0x100_0000,
        _ => true,
    }
}

/// The text of a cell. `NULL`, and every value of a type that has no text form here,
/// is the empty text.
pub open spec fn cell_text(data: ColumnData<'_>) -> Seq<char> {
    match data {
        ColumnData::String(Some(s)) => s@,
        ColumnData::U8(Some(v)) => signed_decimal(v as int),
        ColumnData::I16(Some(v)) => signed_decimal(v as int),
        ColumnData::I32(Some(v)) => signed_decimal(v as int),
        ColumnData::I64(Some(v)) => signed_decimal(v as int),
        ColumnData::F32(Some(v)) => f32_printed(v).text(),
        ColumnData::F64(Some(v)) => f64_printed(v).text(),
        ColumnData::Bit(Some(v)) => bool_text(v),
        ColumnData::Guid(Some(v)) => guid_text(v),
        ColumnData::DateTime(Some(d)) => stamp_text(
            stamp_at(DAY_1900 + d.days, d.seconds_fragments * 1_000_000_000 / 300),
        ),
        ColumnData::DateTime2(Some(d)) => stamp_text(
            stamp_at(1 + d.days, d.increments * pow10((9 - d.scale) as nat)),
        ),
        ColumnData::Date(Some(d)) => date_text(1 + d),
        _ => Seq::empty(),
    }
}

/// Whether a cell is `NULL`, or of a type of which only the type is known.
pub open spec fn lacks_value(data: ColumnData<'_>) -> bool {
    match data {
        ColumnData::U8(v) => v is None,
        ColumnData::I16(v) => v is None,
        ColumnData::I32(v) => v is None,
        ColumnData::I64(v) => v is None,
        ColumnData::F32(v) => v is None,
        ColumnData::F64(v) => v is None,
        ColumnData::Bit(v) => v is None,
        ColumnData::String(v) => v is None,
        ColumnData::Guid(v) => v is None,
        ColumnData::DateTime(v) => v is None,
        ColumnData::Date(v) => v is None,
        ColumnData::DateTime2(v) => v is None,
        _ => true,
    }
}

/// `NULL` of every type has a text, and it is the empty one; so it is for the values
/// of types of which only the type is known.
pub proof fn null_is_empty_text(data: ColumnData<'_>)
    requires
        lacks_value(data),
    ensures
        renderable(data),
        cell_text(data) == Seq::<char>::empty(),
{
}

/// A number or truth value that is not `NULL` has a text that is not empty.
pub proof fn number_is_not_empty_text(data: ColumnData<'_>)
    requires
        !lacks_value(data),
        data is U8 || data is I16 || data is I32 || data is I64 || data is F32 || data is F64
            || data is Bit,
    ensures
        cell_text(data).len() > 0,
{
    match data {
        ColumnData::U8(Some(v)) => signed_decimal_is_not_empty(v as int),
        ColumnData::I16(Some(v)) => signed_decimal_is_not_empty(v as int),
        ColumnData::I32(Some(v)) => signed_decimal_is_not_empty(v as int),
        ColumnData::I64(Some(v)) => signed_decimal_is_not_empty(v as int),
        _ => {
            reveal_strlit("true");
            reveal_strlit("false");
        },
    }
}

/// A time of the day as hours, minutes and seconds of two digits each.
pub open spec fn clock_text(hour: int, minute: int, second: int) -> Seq<char> {
    two_digits(hour) + seq![':'] + two_digits(minute) + seq![':'] + two_digits(second)
}

/// A `date` prints as the year, month and day that it stands for.
pub proof fn date_prints_its_date(days: u32, date: CivilDate)
    requires
        date.valid(),
        date.day_number() == 1 + days,
    ensures
        cell_text(ColumnData::Date(Some(days))) == date.text(),
{
    date_text_is_civil(date);
}

/// A `datetime` prints as the date and the time of day that it stands for; parts of a
/// second are left away.
pub proof fn datetime_prints_its_time(
    d: DateTime,
    date: CivilDate,
    hour: int,
    minute: int,
    second: int,
    fragment: int,
)
    requires
        in_calendar(DAY_1900 + d.days),
        date.valid(),
        date.day_number() == DAY_1900 + d.days,
        0 <= hour < 24,
        0 <= minute < 60,
        0 <= second < 60,
        0 <= fragment < 300,
        d.seconds_fragments == ((hour * 60 + minute) * 60 + second) * 300 + fragment,
    ensures
        cell_text(ColumnData::DateTime(Some(d))) == date.text() + seq![' '] + clock_text(
            hour,
            minute,
            second,
        ),
{
    date_text_is_civil(date);
    let seconds = (hour * 60 + minute) * 60 + second;
    let nanoseconds = d.seconds_fragments * 1_000_000_000 / 300;
    assert(nanoseconds / 1_000_000_000 == seconds);
    assert(stamp_at(DAY_1900 + d.days, nanoseconds).second == seconds);
    assert(seconds / 3600 == hour && seconds / 60 % 60 == minute && seconds % 60 == second);
}

/// A `datetime2` prints as the date and the time of day that it stands for; parts of
/// a second are left away.
pub proof fn datetime2_prints_its_time(
    d: DateTime2,
    date: CivilDate,
    hour: int,
    minute: int,
    second: int,
    nanosecond: int,
)
    requires
        datetime2_in_range(d),
        date.valid(),
        date.day_number() == 1 + d.days,
        0 <= hour < 24,
        0 <= minute < 60,
        0 <= second < 60,
        0 <= nanosecond < 1_000_000_000,
        d.increments * pow10((9 - d.scale) as nat) == ((hour * 60 + minute) * 60 + second)
            * 1_000_000_000 + nanosecond,
    ensures
        cell_text(ColumnData::DateTime2(Some(d))) == date.text() + seq![' '] + clock_text(
            hour,
            minute,
            second,
        ),
{
    date_text_is_civil(date);
    let seconds = (hour * 60 + minute) * 60 + second;
    let nanoseconds = d.increments * pow10((9 - d.scale) as nat);
    assert(nanoseconds / 1_000_000_000 == seconds);
    assert(stamp_at(1 + d.days, nanoseconds).second == seconds);
    assert(seconds / 3600 == hour && seconds / 60 % 60 == minute && seconds % 60 == second);
}

/// The owned form of a text that may be borrowed.
pub fn extract_string(cow_str: Option<Cow<'_, str>>) -> (s: Option<String>)
    ensures
        match cow_str {
            Some(cow) => s is Some && s->0@ == cow@,
            None => s is None,
        },
{
    match cow_str {
        Some(Cow::Borrowed(s)) => Some(s.to_owned()),
        Some(Cow::Owned(s)) => Some(s),
        None => None,
    }
}

impl<'a> ColumnData<'a> {
    /// Tells whether a cell has a text.
    pub fn is_renderable(&self) -> (yes: bool)
        ensures
            yes == renderable(*self),
    {
        match self {
            ColumnData::DateTime(Some(d)) => {
                let days: i64 = d.days as i64;
                let day: i64 = DAY_1900 as i64 + days;
                FIRST_DAY as i64 <= day && day <= LAST_DAY as i64
            },
            ColumnData::DateTime2(Some(d)) => {
                if d.days >= 0x100_0000 || d.scale > 9 {
                    return false;
                }
                let unit: u64 = power_of_ten(9 - d.scale);
                let longest: u64 = 0x7fff_ffff_ffff_ffff / unit;
                proof {
                    let (i, u, l) = (d.increments as int, unit as int, longest as int);
                    assert(i <= l <==> i * u <= 0x7fff_ffff_ffff_ffff) by (nonlinear_arith)
                        requires
                            u >= 1,
                            i >= 0,
                            l == 0x7fff_ffff_ffff_ffffint / u,
                    ;
                }
                d.increments <= longest
            },
            ColumnData::Date(Some(d)) => *d < 0x100_0000,
            _ => true,
        }
    }
}

/// The text of a cell: numbers in decimal, dates and times in ISO order, text as it
/// is, and the empty text for `NULL` and for types without a text form.
pub fn column_data_to_string(data: ColumnData<'_>) -> (s: String)
    requires
        renderable(data),
    ensures
        s@ == cell_text(data),
{
    match data {
        ColumnData::String(v) => match extract_string(v) {
            Some(s) => s,
            None => String::new(),
        },
        ColumnData::U8(Some(v)) => integer_to_string(v as i64),
        ColumnData::I16(Some(v)) => integer_to_string(v as i64),
        ColumnData::I32(Some(v)) => integer_to_string(v as i64),
        ColumnData::I64(Some(v)) => integer_to_string(v),
        ColumnData::F32(Some(v)) => f32_to_string(v),
        ColumnData::F64(Some(v)) => f64_to_string(v),
        ColumnData::Bit(Some(v)) => bool_to_string(v),
        ColumnData::Guid(Some(v)) => guid_to_string(v),
        ColumnData::DateTime(Some(d)) => match datetime_from_sql(d.days, d.seconds_fragments) {
            Some(stamp) => format_datetime(stamp, DATETIME_FORMAT),
            None => String::new(),
        },
        ColumnData::DateTime2(Some(d)) => match datetime2_from_sql(d.days, d.increments, d.scale) {
            Some(stamp) => format_datetime(stamp, DATETIME_FORMAT),
            None => String::new(),
        },
        ColumnData::Date(Some(d)) => match date_from_sql(d) {
            Some(day) => format_date(day, DATE_FORMAT),
            None => String::new(),
        },
        _ => String::new(),
    }
}

} // verus!
