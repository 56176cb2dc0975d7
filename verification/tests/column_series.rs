use dlpq::column::{ColumnData, DateTime, TiberiusColumn};
use dlpq::metadata::{column_dtype, ColumnType};
use dlpq::series::{cells_fit, declared_dtype, from, strings_fit, text_series, try_from};
use dlpq::series::{typed_series, DType};
use polars::prelude::{AnyValue, DataType, Series, TimeUnit};
use std::borrow::Cow;

fn column(name: &str, data: Vec<ColumnData<'static>>) -> TiberiusColumn<'static> {
    assert!(cells_fit(&data));
    TiberiusColumn { name: String::from(name), data }
}

fn text(s: &'static str) -> ColumnData<'static> {
    ColumnData::String(Some(Cow::Borrowed(s)))
}

fn entry(series: &Series, i: usize) -> AnyValue<'_> {
    series.get(i).unwrap()
}

#[test]
fn inferred_integers() {
    let series = from(&column("n", vec![ColumnData::I32(Some(7)), ColumnData::I32(None)]));
    assert_eq!(series.name().as_str(), "n");
    assert_eq!(series.dtype(), &DataType::Int32);
    assert_eq!(series.len(), 2);
    assert_eq!(series.i32().unwrap().get(0), Some(7));
    assert_eq!(series.i32().unwrap().get(1), None);
    let series = from(&column("n", vec![ColumnData::I64(None), ColumnData::I64(Some(-1))]));
    assert_eq!(series.dtype(), &DataType::Int64);
    assert_eq!(series.i64().unwrap().get(1), Some(-1));
}

#[test]
fn inferred_floats_keep_their_bits() {
    let single = 0.1f32;
    let series = from(&column("f", vec![ColumnData::F32(Some(single.to_bits()))]));
    assert_eq!(series.dtype(), &DataType::Float32);
    assert_eq!(series.f32().unwrap().get(0), Some(single));
    let double = -1e300f64;
    let series = from(&column("f", vec![ColumnData::F64(Some(double.to_bits()))]));
    assert_eq!(series.dtype(), &DataType::Float64);
    assert_eq!(series.f64().unwrap().get(0), Some(double));
}

#[test]
fn inferred_truth_values_and_texts() {
    let series = from(&column("b", vec![ColumnData::Bit(Some(true)), ColumnData::Bit(None)]));
    assert_eq!(series.dtype(), &DataType::Boolean);
    assert_eq!(series.bool().unwrap().get(0), Some(true));
    assert_eq!(series.bool().unwrap().get(1), None);
    let owned = ColumnData::String(Some(Cow::Owned(String::from("ü"))));
    let series = from(&column("s", vec![text("a"), owned, ColumnData::String(None)]));
    assert_eq!(series.dtype(), &DataType::String);
    assert_eq!(series.str().unwrap().get(0), Some("a"));
    assert_eq!(series.str().unwrap().get(1), Some("ü"));
    assert_eq!(series.str().unwrap().get(2), None);
}

#[test]
fn inferred_from_nothing_is_null() {
    let series = from(&column("e", vec![]));
    assert_eq!(series.dtype(), &DataType::Null);
    assert_eq!(series.len(), 0);
    let cells = vec![ColumnData::I32(None), ColumnData::U8(Some(3)), ColumnData::I16(Some(4))];
    let series = from(&column("e", cells));
    assert_eq!(series.dtype(), &DataType::Null);
    assert_eq!(series.len(), 3);
    assert_eq!(series.null_count(), 3);
}

fn kinds() -> Vec<(ColumnData<'static>, usize)> {
    vec![
        (ColumnData::U8(Some(5)), 7),
        (ColumnData::I16(Some(6)), 8),
        (ColumnData::Binary, 0),
        (ColumnData::Bit(Some(true)), 1),
        (ColumnData::I32(Some(2)), 2),
        (ColumnData::I64(Some(3)), 3),
        (ColumnData::F32(Some(1.5f32.to_bits())), 4),
        (ColumnData::F64(Some(2.5f64.to_bits())), 5),
        (text("x"), 6),
    ]
}

fn expected_supertype(present: &[bool]) -> DataType {
    if present[6] {
        DataType::String
    } else if present[5] || (present[4] && (present[2] || present[3])) {
        DataType::Float64
    } else if present[4] {
        DataType::Float32
    } else if present[3] {
        DataType::Int64
    } else if present[2] {
        DataType::Int32
    } else if present[8] {
        DataType::Int16
    } else if present[7] {
        DataType::Int8
    } else if present[1] {
        DataType::Boolean
    } else {
        DataType::Null
    }
}

fn subset(which: usize) -> (Vec<ColumnData<'static>>, Vec<bool>) {
    let mut cells: Vec<ColumnData<'static>> = Vec::new();
    let mut present = vec![false; 9];
    for (cell, k) in kinds() {
        if which >> k & 1 == 1 {
            present[k] = true;
            cells.push(cell);
        }
    }
    (cells, present)
}

#[test]
fn mixed_cells_have_their_supertype() {
    for which in 0..512usize {
        let (cells, mut present) = subset(which);
        let (mut reversed, _) = subset(which);
        reversed.reverse();
        let count = cells.len();
        present[7] = false;
        present[8] = false;
        let series = from(&column("m", cells));
        assert_eq!(series.dtype(), &expected_supertype(&present));
        assert_eq!(series.len(), count);
        let series = from(&column("m", reversed));
        assert_eq!(series.dtype(), &expected_supertype(&present));
    }
}

#[test]
fn mixed_cells_keep_their_types() {
    for which in 0..512usize {
        let (cells, present) = subset(which);
        let (mut reversed, _) = subset(which);
        reversed.reverse();
        let count = cells.len();
        let series = typed_series(&column("m", cells), None);
        assert_eq!(series.dtype(), &expected_supertype(&present));
        assert_eq!(series.len(), count);
        assert_eq!(series.null_count(), if present[0] { 1 } else { 0 });
        let series = typed_series(&column("m", reversed), None);
        assert_eq!(series.dtype(), &expected_supertype(&present));
    }
}

#[test]
fn small_integers_keep_their_values() {
    let cells = vec![
        ColumnData::I16(Some(7)),
        ColumnData::I16(None),
        ColumnData::I16(Some(i16::MIN)),
    ];
    let series = typed_series(&column("s", cells), Some(DType::Int16));
    assert_eq!(series.dtype(), &DataType::Int16);
    assert_eq!(entry(&series, 0), AnyValue::Int16(7));
    assert_eq!(entry(&series, 1), AnyValue::Null);
    assert_eq!(entry(&series, 2), AnyValue::Int16(i16::MIN));
}

#[test]
fn tiny_integers_keep_their_values() {
    let cells = vec![ColumnData::U8(Some(0)), ColumnData::U8(None), ColumnData::U8(Some(127))];
    let series = typed_series(&column("t", cells), Some(DType::Int8));
    assert_eq!(series.dtype(), &DataType::Int8);
    assert_eq!(entry(&series, 0), AnyValue::Int8(0));
    assert_eq!(entry(&series, 1), AnyValue::Null);
    assert_eq!(entry(&series, 2), AnyValue::Int8(127));
    let cells = vec![ColumnData::U8(Some(3)), ColumnData::U8(None), ColumnData::U8(Some(255))];
    let series = typed_series(&column("t", cells), Some(DType::Int8));
    assert_eq!(series.dtype(), &DataType::Int16);
    assert_eq!(entry(&series, 0), AnyValue::Int16(3));
    assert_eq!(entry(&series, 1), AnyValue::Null);
    assert_eq!(entry(&series, 2), AnyValue::Int16(255));
}

#[test]
fn mixed_small_integers_keep_their_values() {
    let cells = || vec![ColumnData::U8(Some(9)), ColumnData::I16(Some(-9)), ColumnData::Bit(Some(true))];
    let series = typed_series(&column("m", cells()), None);
    assert_eq!(series.dtype(), &DataType::Int16);
    assert_eq!(entry(&series, 0), AnyValue::Int16(9));
    assert_eq!(entry(&series, 1), AnyValue::Int16(-9));
    assert_eq!(entry(&series, 2), AnyValue::Int16(1));
    let mut wider = cells();
    wider.push(ColumnData::I64(Some(1)));
    let series = typed_series(&column("m", wider), None);
    assert_eq!(entry(&series, 0), AnyValue::Int64(9));
    assert_eq!(entry(&series, 1), AnyValue::Int64(-9));
    let mut floating = cells();
    floating.push(ColumnData::F32(Some(0.5f32.to_bits())));
    let series = typed_series(&column("m", floating), None);
    assert_eq!(series.dtype(), &DataType::Float32);
    assert_eq!(entry(&series, 0), AnyValue::Float32(9.0));
    assert_eq!(entry(&series, 1), AnyValue::Float32(-9.0));
    let mut worded = cells();
    worded.push(text("x"));
    worded.push(ColumnData::I16(Some(1234)));
    let series = typed_series(&column("m", worded), None);
    assert_eq!(series.str().unwrap().get(0), Some("9"));
    assert_eq!(series.str().unwrap().get(1), Some("-9"));
    assert_eq!(series.str().unwrap().get(2), Some("true"));
    assert_eq!(series.str().unwrap().get(4), Some("1234"));
}

#[test]
fn mixed_integers_keep_their_values() {
    let cells = vec![
        ColumnData::I64(Some(1 << 40)),
        ColumnData::I32(Some(-5)),
        ColumnData::Bit(Some(true)),
        ColumnData::Bit(Some(false)),
        ColumnData::I32(None),
    ];
    let series = from(&column("m", cells));
    assert_eq!(series.dtype(), &DataType::Int64);
    assert_eq!(entry(&series, 0), AnyValue::Int64(1 << 40));
    assert_eq!(entry(&series, 1), AnyValue::Int64(-5));
    assert_eq!(entry(&series, 2), AnyValue::Int64(1));
    assert_eq!(entry(&series, 3), AnyValue::Int64(0));
    assert_eq!(entry(&series, 4), AnyValue::Null);
}

#[test]
fn mixed_numbers_and_texts_become_texts() {
    let series = from(&column("m", vec![ColumnData::I32(Some(12)), text("a"), ColumnData::I32(None)]));
    assert_eq!(series.str().unwrap().get(0), Some("12"));
    assert_eq!(series.str().unwrap().get(1), Some("a"));
    assert_eq!(series.str().unwrap().get(2), None);
}

#[test]
fn mixed_truth_values_and_floats_become_texts() {
    let cells = vec![
        ColumnData::Bit(Some(true)),
        ColumnData::Bit(Some(false)),
        ColumnData::I64(Some(-1234567)),
        ColumnData::I32(Some(1000)),
        ColumnData::F64(Some(2.5f64.to_bits())),
        ColumnData::F32(Some(0.5f32.to_bits())),
        text("a"),
    ];
    let series = from(&column("m", cells));
    assert_eq!(series.dtype(), &DataType::String);
    assert_eq!(series.str().unwrap().get(0), Some("true"));
    assert_eq!(series.str().unwrap().get(1), Some("false"));
    assert_eq!(series.str().unwrap().get(2), Some("-1234567"));
    assert_eq!(series.str().unwrap().get(3), Some("1000"));
    assert_eq!(series.str().unwrap().get(4), Some("2.5"));
    assert_eq!(series.str().unwrap().get(5), Some("0.5"));
    assert_eq!(series.str().unwrap().get(6), Some("a"));
}

#[test]
fn mixed_numbers_become_floats() {
    let cells = vec![
        ColumnData::F32(Some(0.5f32.to_bits())),
        ColumnData::I32(Some(-3)),
        ColumnData::Bit(Some(true)),
        ColumnData::Bit(Some(false)),
        ColumnData::F32(Some(f32::NAN.to_bits())),
        ColumnData::F64(None),
    ];
    let series = from(&column("m", cells));
    assert_eq!(series.dtype(), &DataType::Float64);
    assert_eq!(series.f64().unwrap().get(0), Some(0.5));
    assert_eq!(series.f64().unwrap().get(1), Some(-3.0));
    assert_eq!(series.f64().unwrap().get(2).unwrap().to_bits(), 0x3ff0_0000_0000_0000);
    assert_eq!(series.f64().unwrap().get(3).unwrap().to_bits(), 0);
    assert!(series.f64().unwrap().get(4).unwrap().is_nan());
    assert_eq!(series.f64().unwrap().get(5), None);
    let cells = vec![ColumnData::F32(Some(0.5f32.to_bits())), ColumnData::Bit(Some(true))];
    let series = from(&column("m", cells));
    assert_eq!(series.dtype(), &DataType::Float32);
    assert_eq!(series.f32().unwrap().get(1).unwrap().to_bits(), 0x3f80_0000);
}

#[test]
fn declared_by_the_first_cell() {
    let cells = vec![ColumnData::I32(None), ColumnData::I32(Some(5)), ColumnData::I64(Some(6))];
    let series = try_from(column("n", cells)).ok().unwrap();
    assert_eq!(series.name().as_str(), "n");
    assert_eq!(series.dtype(), &DataType::Int32);
    assert_eq!(series.i32().unwrap().get(0), None);
    assert_eq!(series.i32().unwrap().get(1), Some(5));
    assert_eq!(series.i32().unwrap().get(2), None);
}

#[test]
fn declared_of_every_type() {
    let series = try_from(column("c", vec![ColumnData::I64(Some(9))])).ok().unwrap();
    assert_eq!(series.i64().unwrap().get(0), Some(9));
    let series = try_from(column("c", vec![ColumnData::F32(Some(0.25f32.to_bits()))])).ok().unwrap();
    assert_eq!(series.f32().unwrap().get(0), Some(0.25));
    let series = try_from(column("c", vec![ColumnData::F64(Some(0.75f64.to_bits()))])).ok().unwrap();
    assert_eq!(series.f64().unwrap().get(0), Some(0.75));
    let series = try_from(column("c", vec![ColumnData::Bit(Some(false))])).ok().unwrap();
    assert_eq!(series.bool().unwrap().get(0), Some(false));
    let series = try_from(column("c", vec![text("t"), ColumnData::String(None)])).ok().unwrap();
    assert_eq!(series.str().unwrap().get(0), Some("t"));
    assert_eq!(series.str().unwrap().get(1), None);
}

#[test]
fn declared_without_cells_is_of_texts() {
    let series = try_from(column("empty", vec![])).ok().unwrap();
    assert_eq!(series.name().as_str(), "empty");
    assert_eq!(series.dtype(), &DataType::String);
    assert_eq!(series.len(), 0);
}

#[test]
fn declared_refuses_other_types() {
    for first in [
        ColumnData::U8(Some(1)),
        ColumnData::I16(None),
        ColumnData::Guid(Some(1)),
        ColumnData::Binary,
        ColumnData::Numeric,
        ColumnData::Date(Some(1)),
        ColumnData::DateTime(Some(DateTime { days: 0, seconds_fragments: 0 })),
    ] {
        assert!(declared_dtype(&first).is_none());
        let error = try_from(column("when", vec![first, ColumnData::I32(Some(1))])).err().unwrap();
        assert_eq!(error.column, "when");
        assert_eq!(
            error.message(),
            "Unsupported Tiberius conversion fallback for column: when"
        );
    }
}

#[test]
fn conversions_of_a_uniform_column_agree() {
    let cells = || vec![ColumnData::I64(None), ColumnData::I64(Some(4)), ColumnData::I64(Some(-4))];
    let inferred = from(&column("u", cells()));
    let declared = try_from(column("u", cells())).ok().unwrap();
    assert_eq!(inferred.dtype(), declared.dtype());
    assert!(inferred.equals_missing(&declared));
}

#[test]
fn metadata_names_data_types() {
    assert!(column_dtype(false, ColumnType::Int1) == Some(DType::Int8));
    assert!(column_dtype(false, ColumnType::Int2) == Some(DType::Int16));
    assert!(column_dtype(false, ColumnType::Int4) == Some(DType::Int32));
    assert!(column_dtype(false, ColumnType::Int8) == Some(DType::Int64));
    assert!(column_dtype(false, ColumnType::Float4) == Some(DType::Float32));
    assert!(column_dtype(false, ColumnType::Float8) == Some(DType::Float64));
    assert!(column_dtype(false, ColumnType::Bit) == Some(DType::Boolean));
    assert!(column_dtype(false, ColumnType::Guid) == Some(DType::String));
    assert!(column_dtype(false, ColumnType::BigVarChar) == Some(DType::String));
    assert!(column_dtype(false, ColumnType::NChar) == Some(DType::String));
    assert!(column_dtype(false, ColumnType::NVarchar) == Some(DType::String));
    assert!(column_dtype(false, ColumnType::Daten) == Some(DType::Date));
    assert!(column_dtype(false, ColumnType::Datetime) == Some(DType::Datetime));
    assert!(column_dtype(false, ColumnType::Datetime2) == Some(DType::Datetime));
    assert!(column_dtype(false, ColumnType::Xml).is_none());
    assert!(column_dtype(false, ColumnType::Bitn).is_none());
    assert!(column_dtype(true, ColumnType::Xml) == Some(DType::String));
    assert!(column_dtype(true, ColumnType::Int4) == Some(DType::String));
}

#[test]
fn nulls_have_the_type_of_the_metadata() {
    let datetime = DataType::Datetime(TimeUnit::Microseconds, None);
    for (dtype, expected) in [
        (DType::Null, DataType::Null),
        (DType::Boolean, DataType::Boolean),
        (DType::Int8, DataType::Int8),
        (DType::Int16, DataType::Int16),
        (DType::Int32, DataType::Int32),
        (DType::Int64, DataType::Int64),
        (DType::Float32, DataType::Float32),
        (DType::Float64, DataType::Float64),
        (DType::String, DataType::String),
        (DType::Date, DataType::Date),
        (DType::Datetime, datetime),
    ] {
        let series = typed_series(&column("z", vec![ColumnData::I32(None), ColumnData::Xml]), Some(dtype));
        assert_eq!(series.name().as_str(), "z");
        assert_eq!(series.dtype(), &expected);
        assert_eq!(series.len(), 2);
        assert_eq!(series.null_count(), 2);
        assert_eq!(typed_series(&column("z", vec![]), Some(dtype)).dtype(), &expected);
    }
}

#[test]
fn values_have_their_own_type() {
    let series = typed_series(&column("v", vec![ColumnData::I32(None), ColumnData::I32(Some(3))]), Some(DType::Int32));
    assert_eq!(series.dtype(), &DataType::Int32);
    assert_eq!(series.i32().unwrap().get(1), Some(3));
    let series = typed_series(&column("v", vec![ColumnData::I32(Some(3))]), None);
    assert_eq!(series.dtype(), &DataType::Int32);
    let series = typed_series(&column("v", vec![ColumnData::I32(None)]), None);
    assert_eq!(series.dtype(), &DataType::Null);
}

#[test]
fn texts_make_a_series_without_nulls() {
    let texts = vec![String::from("a"), String::new()];
    assert!(strings_fit(&texts));
    let series = text_series("t", texts);
    assert_eq!(series.name().as_str(), "t");
    assert_eq!(series.dtype(), &DataType::String);
    assert_eq!(series.null_count(), 0);
    assert_eq!(series.str().unwrap().get(0), Some("a"));
    assert_eq!(series.str().unwrap().get(1), Some(""));
}
