use chrono::Datelike;
use dlpq::calendar::{power_of_ten, DAY_1900, FIRST_DAY, LAST_DAY};
use dlpq::column::{column_data_to_string, extract_string, ColumnData, DateTime, DateTime2};
use dlpq::text::{bool_to_string, integer_to_string, push_decimal};
use std::borrow::Cow;

fn text(data: ColumnData<'_>) -> String {
    assert!(data.is_renderable());
    column_data_to_string(data)
}

fn datetime(days: i32, seconds_fragments: u32) -> ColumnData<'static> {
    ColumnData::DateTime(Some(DateTime { days, seconds_fragments }))
}

fn datetime2(days: u32, increments: u64, scale: u8) -> ColumnData<'static> {
    ColumnData::DateTime2(Some(DateTime2 { days, increments, scale }))
}

#[test]
fn integers_are_decimal() {
    assert_eq!(text(ColumnData::U8(Some(0))), "0");
    assert_eq!(text(ColumnData::U8(Some(255))), "255");
    assert_eq!(text(ColumnData::I16(Some(-32768))), "-32768");
    assert_eq!(text(ColumnData::I32(Some(2147483647))), "2147483647");
    assert_eq!(text(ColumnData::I32(Some(-10))), "-10");
    assert_eq!(text(ColumnData::I64(Some(i64::MIN))), "-9223372036854775808");
    assert_eq!(text(ColumnData::I64(Some(i64::MAX))), "9223372036854775807");
}

#[test]
fn integer_texts_match_the_standard_ones() {
    for v in [0, 1, -1, 9, 10, 11, 99, 100, 101, -100, 123456789, i64::MIN, i64::MAX] {
        assert_eq!(integer_to_string(v), v.to_string());
    }
    let mut out = String::from("n=");
    push_decimal(&mut out, u64::MAX);
    assert_eq!(out, "n=18446744073709551615");
}

#[test]
fn floats_print_shortest() {
    assert_eq!(text(ColumnData::F32(Some(1.5f32.to_bits()))), "1.5");
    assert_eq!(text(ColumnData::F32(Some(0.1f32.to_bits()))), "0.1");
    assert_eq!(text(ColumnData::F64(Some(0.1f64.to_bits()))), "0.1");
    assert_eq!(text(ColumnData::F64(Some((-2.0f64).to_bits()))), "-2");
    assert_eq!(text(ColumnData::F64(Some(1e21f64.to_bits()))), "1000000000000000000000");
    assert_eq!(text(ColumnData::F64(Some(f64::NAN.to_bits()))), "NaN");
    assert_eq!(text(ColumnData::F32(Some(f32::NEG_INFINITY.to_bits()))), "-inf");
}

#[test]
fn truth_values_are_words() {
    assert_eq!(text(ColumnData::Bit(Some(true))), "true");
    assert_eq!(text(ColumnData::Bit(Some(false))), "false");
    assert_eq!(bool_to_string(true), "true");
}

#[test]
fn texts_are_unchanged() {
    assert_eq!(text(ColumnData::String(Some(Cow::Borrowed("Größe")))), "Größe");
    assert_eq!(text(ColumnData::String(Some(Cow::Owned(String::from("a b"))))), "a b");
    assert_eq!(extract_string(Some(Cow::Borrowed("x"))), Some(String::from("x")));
    assert_eq!(extract_string(Some(Cow::Owned(String::from("y")))), Some(String::from("y")));
    assert_eq!(extract_string(None), None);
}

#[test]
fn guids_are_hyphenated() {
    assert_eq!(
        text(ColumnData::Guid(Some(0x01234567_89ab_cdef_0123_456789ABCDEF))),
        "01234567-89ab-cdef-0123-456789abcdef"
    );
    assert_eq!(text(ColumnData::Guid(Some(0))), "00000000-0000-0000-0000-000000000000");
}

#[test]
fn dates_are_iso() {
    assert_eq!(text(ColumnData::Date(Some(0))), "0001-01-01");
    assert_eq!(text(ColumnData::Date(Some(738944))), "2024-02-29");
    assert_eq!(text(ColumnData::Date(Some(3652058))), "9999-12-31");
    assert_eq!(text(ColumnData::Date(Some(3652059))), "+10000-01-01");
    let last = chrono::NaiveDate::from_num_days_from_ce_opt(0x100_0000).unwrap();
    assert_eq!(
        text(ColumnData::Date(Some(0xff_ffff))),
        format!("+{}-{:02}-{:02}", last.year(), last.month(), last.day())
    );
}

#[test]
fn datetimes_are_iso_to_the_second() {
    assert_eq!(text(datetime(0, 0)), "1900-01-01 00:00:00");
    assert_eq!(text(datetime(45349, (13 * 3600 + 14 * 60 + 15) * 300 + 299)), "2024-02-29 13:14:15");
    assert_eq!(text(datetime(-53690, 300 * 86_399)), "1753-01-01 23:59:59");
    assert_eq!(text(datetime(-693_596, 0)), "0000-12-31 00:00:00");
    assert_eq!(text(datetime(-693_596 - 366, 0)), "-0001-12-31 00:00:00");
    assert_eq!(text(datetime(0, 300 * 86_401)), "1900-01-01 00:00:01");
    assert_eq!(text(datetime(0, u32::MAX)), "1900-01-01 16:49:17");
}

#[test]
fn datetime2s_are_iso_to_the_second() {
    assert_eq!(text(datetime2(738944, 476_559_999_999, 7)), "2024-02-29 13:14:15");
    assert_eq!(text(datetime2(738944, 47_655, 0)), "2024-02-29 13:14:15");
    assert_eq!(text(datetime2(0, 47_655_123, 3)), "0001-01-01 13:14:15");
    assert_eq!(text(datetime2(0, 999_999_999, 9)), "0001-01-01 00:00:00");
}

#[test]
fn every_day_prints_as_chrono_has_it() {
    let mut days = 0u32;
    while days < 800_000 {
        let date = chrono::NaiveDate::from_num_days_from_ce_opt(days as i32 + 1).unwrap();
        assert_eq!(
            text(ColumnData::Date(Some(days))),
            format!("{:04}-{:02}-{:02}", date.year(), date.month(), date.day())
        );
        days += 997;
    }
}

#[test]
fn calendar_bounds_are_those_of_chrono() {
    assert_eq!(FIRST_DAY, chrono::NaiveDate::MIN.num_days_from_ce());
    assert_eq!(LAST_DAY, chrono::NaiveDate::MAX.num_days_from_ce());
    let start = chrono::NaiveDate::from_ymd_opt(1900, 1, 1).unwrap();
    assert_eq!(DAY_1900, start.num_days_from_ce());
    assert_eq!(text(datetime(LAST_DAY - DAY_1900, 0)), "+262142-12-31 00:00:00");
    assert_eq!(text(datetime(FIRST_DAY - DAY_1900, 0)), "-262143-01-01 00:00:00");
}

#[test]
fn dates_outside_the_calendar_have_no_text() {
    assert!(!datetime(LAST_DAY - DAY_1900 + 1, 0).is_renderable());
    assert!(!datetime(FIRST_DAY - DAY_1900 - 1, 0).is_renderable());
    assert!(!datetime(i32::MAX, 0).is_renderable());
    assert!(!ColumnData::Date(Some(0x100_0000)).is_renderable());
    assert!(!datetime2(0x100_0000, 0, 7).is_renderable());
    assert!(!datetime2(0, 0, 10).is_renderable());
    assert!(!datetime2(0, 9_223_372_037, 0).is_renderable());
    assert!(datetime2(0, 9_223_372_036, 0).is_renderable());
    assert!(datetime2(0, i64::MAX as u64, 9).is_renderable());
}

#[test]
fn null_is_the_empty_text() {
    for data in [
        ColumnData::U8(None),
        ColumnData::I16(None),
        ColumnData::I32(None),
        ColumnData::I64(None),
        ColumnData::F32(None),
        ColumnData::F64(None),
        ColumnData::Bit(None),
        ColumnData::String(None),
        ColumnData::Guid(None),
        ColumnData::DateTime(None),
        ColumnData::DateTime2(None),
        ColumnData::Date(None),
    ] {
        assert_eq!(text(data), "");
    }
}

#[test]
fn types_without_a_text_form_are_empty() {
    for data in [
        ColumnData::Binary,
        ColumnData::Numeric,
        ColumnData::Xml,
        ColumnData::SmallDateTime,
        ColumnData::Time,
        ColumnData::DateTimeOffset,
    ] {
        assert_eq!(text(data), "");
    }
}

#[test]
fn powers_of_ten() {
    assert_eq!(power_of_ten(0), 1);
    assert_eq!(power_of_ten(3), 1000);
    assert_eq!(power_of_ten(9), 1_000_000_000);
}
