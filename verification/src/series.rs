//! From the cells of a column to a polars `Series`.

use crate::column::{extract_string, lacks_value, ColumnData, TiberiusColumn};
use crate::text::{bool_text, grouped_decimal};
use polars::prelude::{AnyValue, DataType, NamedFrom, PlSmallStr, PolarsError, Series, TimeUnit};
use polars::prelude::{Float32Type, Float64Type, PolarsNumericType};
use std::borrow::Cow;
use vstd::prelude::*;
use vstd::utf8::encode_utf8;

verus! {

/// The data types that a column can have.
#[derive(Clone, Copy, PartialEq, Eq, Structural)]
pub enum DType {
    Null,
    Boolean,
    Int8,
    Int16,
    Int32,
    Int64,
    Float32,
    Float64,
    String,
    Date,
    /// Microseconds, without a time zone.
    Datetime,
}

/// An entry of a series. Floating-point numbers are given by their bits.
pub enum Datum {
    Null,
    Boolean(bool),
    Int8(i8),
    Int16(i16),
    Int32(i32),
    Int64(i64),
    Float32(u32),
    Float64(u64),
    String(Seq<char>),
}

impl Datum {
    /// The data type of an entry.
    pub open spec fn dtype(self) -> DType {
        match self {
            Datum::Null => DType::Null,
            Datum::Boolean(_) => DType::Boolean,
            Datum::Int8(_) => DType::Int8,
            Datum::Int16(_) => DType::Int16,
            Datum::Int32(_) => DType::Int32,
            Datum::Int64(_) => DType::Int64,
            Datum::Float32(_) => DType::Float32,
            Datum::Float64(_) => DType::Float64,
            Datum::String(_) => DType::String,
        }
    }

    /// The integer that an entry stands for, 1 and 0 for the truth values.
    pub open spec fn whole(self) -> Option<int> {
        match self {
            Datum::Boolean(v) => Some(
                if v {
                    1
                } else {
                    0
                },
            ),
            Datum::Int8(v) => Some(v as int),
            Datum::Int16(v) => Some(v as int),
            Datum::Int32(v) => Some(v as int),
            Datum::Int64(v) => Some(v as int),
            _ => None,
        }
    }
}

/// The entry that stands for an integer in a series of integers of a data type, none
/// where the data type is not one of integers.
pub open spec fn integer_entry(v: int, dtype: DType) -> Option<Datum> {
    match dtype {
        DType::Int8 => Some(Datum::Int8(v as i8)),
        DType::Int16 => Some(Datum::Int16(v as i16)),
        DType::Int32 => Some(Datum::Int32(v as i32)),
        DType::Int64 => Some(Datum::Int64(v as i64)),
        _ => None,
    }
}

/// A polars `Series`: a named column of entries of one data type.
#[verifier::external_type_specification]
#[verifier::external_body]
pub struct ExSeries(polars::prelude::Series);

/// The error type of polars.
#[verifier::external_type_specification]
#[verifier::external_body]
pub struct ExPolarsError(polars::prelude::PolarsError);

/// The entries of a series, in order.
pub uninterp spec fn series_values(series: polars::prelude::Series) -> Seq<Datum>;

/// The name of a series.
pub uninterp spec fn series_name(series: polars::prelude::Series) -> Seq<char>;

/// The data type of a series.
pub uninterp spec fn series_dtype(series: polars::prelude::Series) -> DType;

/// What a column of a table holds.
#[verifier::ext_equal]
pub struct ColumnView {
    pub name: Seq<char>,
    pub dtype: DType,
    pub values: Seq<Datum>,
}

/// What a series holds.
pub open spec fn series_view(series: Series) -> ColumnView {
    ColumnView {
        name: series_name(series),
        dtype: series_dtype(series),
        values: series_values(series),
    }
}

/// Whether polars can hold a text: it counts bytes in 32 bits.
pub open spec fn text_fits(s: Seq<char>) -> bool {
    encode_utf8(s).len() <= u32::MAX
}

/// Whether polars can hold a number of entries: it keeps the largest 32-bit number
/// for itself.
pub open spec fn length_fits(len: nat) -> bool {
    len < u32::MAX
}

/// An entry to be put into a series.
pub enum Value<'a> {
    Null,
    Boolean(bool),
    Int8(i8),
    Int16(i16),
    Int32(i32),
    Int64(i64),
    Float32(u32),
    Float64(u64),
    String(&'a str),
}

impl<'a> View for Value<'a> {
    type V = Datum;

    open spec fn view(&self) -> Datum {
        match self {
            Value::Null => Datum::Null,
            Value::Boolean(v) => Datum::Boolean(*v),
            Value::Int8(v) => Datum::Int8(*v),
            Value::Int16(v) => Datum::Int16(*v),
            Value::Int32(v) => Datum::Int32(*v),
            Value::Int64(v) => Datum::Int64(*v),
            Value::Float32(v) => Datum::Float32(*v),
            Value::Float64(v) => Datum::Float64(*v),
            Value::String(v) => Datum::String(v@),
        }
    }
}

/// Whether some entry has a data type.
pub open spec fn has_dtype(values: Seq<Datum>, dtype: DType) -> bool {
    exists|i: int| 0 <= i < values.len() && (#[trigger] values[i]).dtype() == dtype
}

/// The least data type to which all entries can be brought.
pub open spec fn supertype(values: Seq<Datum>) -> DType {
    if has_dtype(values, DType::String) {
        DType::String
    } else if has_dtype(values, DType::Float64) || (has_dtype(values, DType::Float32) && (has_dtype(
        values,
        DType::Int32,
    ) || has_dtype(values, DType::Int64))) {
        DType::Float64
    } else if has_dtype(values, DType::Float32) {
        DType::Float32
    } else if has_dtype(values, DType::Int64) {
        DType::Int64
    } else if has_dtype(values, DType::Int32) {
        DType::Int32
    } else if has_dtype(values, DType::Int16) {
        DType::Int16
    } else if has_dtype(values, DType::Int8) {
        DType::Int8
    } else if has_dtype(values, DType::Boolean) {
        DType::Boolean
    } else {
        DType::Null
    }
}

/// What polars makes of a number in a series of floating-point numbers, or of a
/// floating-point number in a series of texts.
pub uninterp spec fn any_value_coercion(value: Datum, dtype: DType) -> Datum;

/// Whether these are the bits of a 32-bit floating-point number that is not a number.
pub open spec fn is_nan32(bits: u32) -> bool {
    bits % 0x8000_0000 > 0x7f80_0000
}

/// Whether these are the bits of a 64-bit floating-point number that is not a number.
pub open spec fn is_nan64(bits: u64) -> bool {
    bits % 0x8000_0000_0000_0000 > 0x7ff0_0000_0000_0000
}

/// Whether an entry is an integer as text, with or without a character between groups
/// of three digits.
pub open spec fn is_integer_text(v: int, entry: Datum) -> bool {
    exists|separator: Seq<char>|
        separator.len() <= 1 && entry == Datum::String(#[trigger] grouped_decimal(v, separator))
}

/// Whether a value stands as this entry in a series of a data type. Where it has that
/// type already it is unchanged, null stays null, integers and truth values become
/// integers of the same value, and truth values become floating-point numbers and
/// texts of the same value. An integer becomes its text, and what is not a number
/// stays so; every other change of type gives `converted`, of the data type asked for.
pub open spec fn coerces(value: Datum, dtype: DType, entry: Datum, converted: Datum) -> bool {
    if value == Datum::Null || value.dtype() == dtype {
        entry == value
    } else {
        match (value, dtype, value.whole()) {
            (_, DType::Int8 | DType::Int16 | DType::Int32 | DType::Int64, Some(v)) => {
                Some(entry) == integer_entry(v, dtype)
            },
            (Datum::Boolean(b), DType::Float32, _) => entry == Datum::Float32(
                if b {
                    0x3f80_0000
                } else {
                    0
                },
            ),
            (Datum::Boolean(b), DType::Float64, _) => entry == Datum::Float64(
                if b {
                    0x3ff0_0000_0000_0000
                } else {
                    0
                },
            ),
            (Datum::Boolean(b), DType::String, _) => entry == Datum::String(bool_text(b)),
            (_, DType::String, Some(v)) => is_integer_text(v, entry),
            (Datum::Float32(v), DType::Float64, _) if is_nan32(v) => {
                entry matches Datum::Float64(w) && is_nan64(w)
            },
            _ => entry == converted && entry.dtype() == dtype,
        }
    }
}

/// Builds a series with `Series::from_any_values`, which is to bring the entries to
/// their common supertype (`strict` is false).
///
/// What is claimed is that this succeeds for the kinds of entry that `Value` has, that
/// the data type is their supertype, and that the entries keep their order and, but
/// for the change of type, their values. What a number becomes in a series of
/// floating-point numbers, and a floating-point number in a series of texts, is only
/// named, `any_value_coercion`, and said to be of the data type of the series. Integers
/// become texts with the thousands separator that is set in polars for the whole
/// process, none unless a program sets one: which it is is not said. Nor is it said
/// which of the bits of a NaN are kept when it is widened, as this depends on the
/// machine. Lengths and texts beyond what polars can hold make the call panic and are
/// left out.
#[verifier::external_body]
fn series_from_any_values(name: &str, values: &Vec<Value<'_>>, strict: bool) -> (series: Result<
    Series,
    PolarsError,
>)
    requires
        !strict,
        length_fits(values@.len()),
        forall|i: int| 0 <= i < values@.len() ==> match #[trigger] values@[i] {
            Value::String(s) => text_fits(s@),
            _ => true,
        },
    ensures
        series is Ok,
        series_name(series->Ok_0) == name@,
        series_dtype(series->Ok_0) == supertype(values@.map_values(|v: Value<'_>| v@)),
        series_values(series->Ok_0).len() == values@.len(),
        forall|i: int|
            0 <= i < values@.len() ==> coerces(
                values@[i]@,
                series_dtype(series->Ok_0),
                #[trigger] series_values(series->Ok_0)[i],
                any_value_coercion(values@[i]@, series_dtype(series->Ok_0)),
            ),
{
    let values: Vec<AnyValue> = values.iter().map(|value| match value {
        Value::Null => AnyValue::Null,
        Value::Boolean(v) => AnyValue::Boolean(*v),
        Value::Int8(v) => AnyValue::Int8(*v),
        Value::Int16(v) => AnyValue::Int16(*v),
        Value::Int32(v) => AnyValue::Int32(*v),
        Value::Int64(v) => AnyValue::Int64(*v),
        Value::Float32(v) => AnyValue::Float32(<Float32Type as PolarsNumericType>::Native::from_bits(*v)),
        Value::Float64(v) => AnyValue::Float64(<Float64Type as PolarsNumericType>::Native::from_bits(*v)),
        Value::String(v) => AnyValue::String(v),
    }).collect();
    Series::from_any_values(PlSmallStr::from_str(name), &values, strict)
}

/// The entries of a series of one data type.
pub enum SeriesData {
    Int32(Vec<Option<i32>>),
    Int64(Vec<Option<i64>>),
    Float32(Vec<Option<u32>>),
    Float64(Vec<Option<u64>>),
    Boolean(Vec<Option<bool>>),
    String(Vec<Option<String>>),
    /// Texts of which none is null.
    Text(Vec<String>),
}

impl SeriesData {
    /// The data type of the entries.
    pub open spec fn dtype(self) -> DType {
        match self {
            SeriesData::Int32(_) => DType::Int32,
            SeriesData::Int64(_) => DType::Int64,
            SeriesData::Float32(_) => DType::Float32,
            SeriesData::Float64(_) => DType::Float64,
            SeriesData::Boolean(_) => DType::Boolean,
            SeriesData::String(_) => DType::String,
            SeriesData::Text(_) => DType::String,
        }
    }

    /// The number of entries.
    pub open spec fn spec_len(self) -> nat {
        match self {
            SeriesData::Int32(v) => v@.len(),
            SeriesData::Int64(v) => v@.len(),
            SeriesData::Float32(v) => v@.len(),
            SeriesData::Float64(v) => v@.len(),
            SeriesData::Boolean(v) => v@.len(),
            SeriesData::String(v) => v@.len(),
            SeriesData::Text(v) => v@.len(),
        }
    }

    /// One of the entries.
    pub open spec fn entry(self, i: int) -> Datum {
        match self {
            SeriesData::Int32(v) => match v@[i] {
                Some(x) => Datum::Int32(x),
                None => Datum::Null,
            },
            SeriesData::Int64(v) => match v@[i] {
                Some(x) => Datum::Int64(x),
                None => Datum::Null,
            },
            SeriesData::Float32(v) => match v@[i] {
                Some(x) => Datum::Float32(x),
                None => Datum::Null,
            },
            SeriesData::Float64(v) => match v@[i] {
                Some(x) => Datum::Float64(x),
                None => Datum::Null,
            },
            SeriesData::Boolean(v) => match v@[i] {
                Some(x) => Datum::Boolean(x),
                None => Datum::Null,
            },
            SeriesData::String(v) => match v@[i] {
                Some(x) => Datum::String(x@),
                None => Datum::Null,
            },
            SeriesData::Text(v) => Datum::String(v@[i]@),
        }
    }

    /// The entries, in order.
    pub open spec fn entries(self) -> Seq<Datum> {
        Seq::new(self.spec_len(), |i: int| self.entry(i))
    }
}

/// Whether polars can hold a series of these entries.
pub open spec fn entries_fit(values: Seq<Datum>) -> bool {
    &&& length_fits(values.len())
    &&& forall|i: int| 0 <= i < values.len() ==> match #[trigger] values[i] {
        Datum::String(s) => text_fits(s),
        _ => true,
    }
}

/// Builds a series with `Series::new`, from the entries of one data type.
///
/// What is claimed is that the series has that name and that data type, and exactly
/// those entries in that order. Lengths and texts beyond what polars can hold make
/// the call panic and are left out.
#[verifier::external_body]
fn series_new(name: &str, data: SeriesData) -> (series: Series)
    requires
        entries_fit(data.entries()),
    ensures
        series_name(series) == name@,
        series_dtype(series) == data.dtype(),
        series_values(series) == data.entries(),
{
    let name = PlSmallStr::from_str(name);
    match data {
        SeriesData::Int32(v) => Series::new(name, v),
        SeriesData::Int64(v) => Series::new(name, v),
        SeriesData::Float32(v) => Series::new(name, v.into_iter().map(
            |x| x.map(<Float32Type as PolarsNumericType>::Native::from_bits)).collect::<Vec<_>>()),
        SeriesData::Float64(v) => Series::new(name, v.into_iter().map(
            |x| x.map(<Float64Type as PolarsNumericType>::Native::from_bits)).collect::<Vec<_>>()),
        SeriesData::Boolean(v) => Series::new(name, v),
        SeriesData::String(v) => Series::new(name, v),
        SeriesData::Text(v) => Series::new(name, v),
    }
}

/// Builds a series of nulls with `Series::full_null`.
///
/// What is claimed is that the series has that name and that data type, and as many
/// entries as asked for, all of them null. Lengths beyond what polars can hold make
/// the call panic and are left out.
#[verifier::external_body]
fn series_full_null(name: &str, len: usize, dtype: DType) -> (series: Series)
    requires
        length_fits(len as nat),
    ensures
        series_name(series) == name@,
        series_dtype(series) == dtype,
        series_values(series) == Seq::new(len as nat, |i: int| Datum::Null),
{
    let dtype = match dtype {
        DType::Null => DataType::Null,
        DType::Boolean => DataType::Boolean,
        DType::Int8 => DataType::Int8,
        DType::Int16 => DataType::Int16,
        DType::Int32 => DataType::Int32,
        DType::Int64 => DataType::Int64,
        DType::Float32 => DataType::Float32,
        DType::Float64 => DataType::Float64,
        DType::String => DataType::String,
        DType::Date => DataType::Date,
        DType::Datetime => DataType::Datetime(TimeUnit::Microseconds, None),
    };
    Series::full_null(PlSmallStr::from_str(name), len, &dtype)
}

/// The entry that a cell becomes. `NULL`, and every value of a type that has no
/// counterpart here, becomes null.
pub open spec fn datum(data: ColumnData<'_>) -> Datum {
    match data {
        ColumnData::I32(Some(v)) => Datum::Int32(v),
        ColumnData::I64(Some(v)) => Datum::Int64(v),
        ColumnData::F32(Some(v)) => Datum::Float32(v),
        ColumnData::F64(Some(v)) => Datum::Float64(v),
        ColumnData::Bit(Some(v)) => Datum::Boolean(v),
        ColumnData::String(Some(v)) => Datum::String(v@),
        _ => Datum::Null,
    }
}

/// The entries that the cells of a column become.
pub open spec fn data_of(cells: Seq<ColumnData<'_>>) -> Seq<Datum> {
    cells.map_values(|c: ColumnData<'_>| datum(c))
}

/// Whether polars can hold the cells of a column.
pub open spec fn column_fits(cells: Seq<ColumnData<'_>>) -> bool {
    entries_fit(data_of(cells))
}

/// Whether a column holds values brought to their supertype.
pub open spec fn unified(name: Seq<char>, values: Seq<Datum>, view: ColumnView) -> bool {
    &&& view.name == name
    &&& view.dtype == supertype(values)
    &&& view.values.len() == values.len()
    &&& forall|i: int|
        0 <= i < values.len() ==> coerces(
            values[i],
            view.dtype,
            #[trigger] view.values[i],
            any_value_coercion(values[i], view.dtype),
        )
}

/// Whether a column has the data type that is inferred from its cells, their supertype,
/// and holds the cells brought to that type.
pub open spec fn inferred(name: Seq<char>, cells: Seq<ColumnData<'_>>, view: ColumnView) -> bool {
    unified(name, data_of(cells), view)
}

/// The data type that the type of a cell stands for, whether or not it is `NULL`.
pub open spec fn cell_dtype(data: ColumnData<'_>) -> Option<DType> {
    match data {
        ColumnData::I32(_) => Some(DType::Int32),
        ColumnData::I64(_) => Some(DType::Int64),
        ColumnData::F32(_) => Some(DType::Float32),
        ColumnData::F64(_) => Some(DType::Float64),
        ColumnData::Bit(_) => Some(DType::Boolean),
        ColumnData::String(_) => Some(DType::String),
        _ => None,
    }
}

/// The entry that a cell becomes in a column of a data type: null where the cell is of
/// another type.
pub open spec fn datum_as(data: ColumnData<'_>, dtype: DType) -> Datum {
    if cell_dtype(data) == Some(dtype) {
        datum(data)
    } else {
        Datum::Null
    }
}

/// The column whose data type is that of its first cell, where that type has a
/// counterpart; a column without cells is one of texts.
pub open spec fn declared_view(name: Seq<char>, cells: Seq<ColumnData<'_>>) -> Option<ColumnView> {
    if cells.len() == 0 {
        Some(ColumnView { name, dtype: DType::String, values: Seq::empty() })
    } else {
        match cell_dtype(cells[0]) {
            Some(dtype) => Some(
                ColumnView {
                    name,
                    dtype,
                    values: cells.map_values(|c: ColumnData<'_>| datum_as(c, dtype)),
                },
            ),
            None => None,
        }
    }
}

/// The entry that a cell becomes.
pub fn cell_value<'b>(data: &'b ColumnData<'_>) -> (value: Value<'b>)
    ensures
        value@ == datum(*data),
{
    match data {
        ColumnData::I32(Some(v)) => Value::Int32(*v),
        ColumnData::I64(Some(v)) => Value::Int64(*v),
        ColumnData::F32(Some(v)) => Value::Float32(*v),
        ColumnData::F64(Some(v)) => Value::Float64(*v),
        ColumnData::Bit(Some(v)) => Value::Boolean(*v),
        ColumnData::String(Some(Cow::Borrowed(s))) => Value::String(s),
        ColumnData::String(Some(Cow::Owned(s))) => Value::String(s.as_str()),
        _ => Value::Null,
    }
}

/// A series of values brought to their supertype.
fn unified_series(name: &str, values: &Vec<Value<'_>>) -> (series: Series)
    requires
        entries_fit(values@.map_values(|v: Value<'_>| v@)),
    ensures
        unified(name@, values@.map_values(|v: Value<'_>| v@), series_view(series)),
{
    proof {
        let entries = values@.map_values(|v: Value<'_>| v@);
        assert forall|j: int| 0 <= j < values@.len() implies match #[trigger] values@[j] {
            Value::String(s) => text_fits(s@),
            _ => true,
        } by {
            assert(entries[j] == values@[j]@);
        }
    }
    series_from_any_values(name, values, false).unwrap()
}

/// A series of the cells of a column. Its data type is inferred from the cells:
/// cells of one type give a series of that type, and `NULL` stays null.
pub fn from(col: &TiberiusColumn<'_>) -> (series: Series)
    requires
        column_fits(col.data@),
    ensures
        inferred(col.name@, col.data@, series_view(series)),
{
    let mut values: Vec<Value<'_>> = Vec::new();
    let mut i: usize = 0;
    while i < col.data.len()
        invariant
            i <= col.data@.len(),
            values@.len() == i,
            forall|j: int| 0 <= j < i ==> (#[trigger] values@[j])@ == datum(col.data@[j]),
        decreases col.data@.len() - i,
    {
        values.push(cell_value(&col.data[i]));
        i = i + 1;
    }
    assert(values@.map_values(|v: Value<'_>| v@) =~= data_of(col.data@));
    unified_series(col.name.as_str(), &values)
}

/// A column of which the first cell is of a type that no series is built from.
pub struct UnsupportedColumn {
    pub column: String,
}

impl UnsupportedColumn {
    /// What to tell the user.
    pub fn message(&self) -> (s: String)
        ensures
            s@ == "Unsupported Tiberius conversion fallback for column: "@ + self.column@,
    {
        let mut out = "Unsupported Tiberius conversion fallback for column: ".to_string();
        out.append(self.column.as_str());
        out
    }
}

/// The cells of a column of 32-bit integers; null stands for `NULL` and for cells of
/// another type.
fn int32_entries(cells: Vec<ColumnData<'_>>) -> (entries: Vec<Option<i32>>)
    ensures
        SeriesData::Int32(entries).entries() == cells@.map_values(
            |c: ColumnData<'_>| datum_as(c, DType::Int32),
        ),
{
    let mut out: Vec<Option<i32>> = Vec::new();
    for cell in it: cells
        invariant
            it.seq() == cells@,
            out@.len() == it.index(),
            forall|j: int|
                0 <= j < out@.len() ==> datum_as(#[trigger] cells@[j], DType::Int32) == match out@[j] {
                    Some(v) => Datum::Int32(v),
                    None => Datum::Null,
                },
    {
        out.push(
            match cell {
                ColumnData::I32(v) => v,
                _ => None,
            },
        );
    }
    assert(SeriesData::Int32(out).entries() =~= cells@.map_values(
        |c: ColumnData<'_>| datum_as(c, DType::Int32),
    ));
    out
}

/// The cells of a column of 64-bit integers; null stands for `NULL` and for cells of
/// another type.
fn int64_entries(cells: Vec<ColumnData<'_>>) -> (entries: Vec<Option<i64>>)
    ensures
        SeriesData::Int64(entries).entries() == cells@.map_values(
            |c: ColumnData<'_>| datum_as(c, DType::Int64),
        ),
{
    let mut out: Vec<Option<i64>> = Vec::new();
    for cell in it: cells
        invariant
            it.seq() == cells@,
            out@.len() == it.index(),
            forall|j: int|
                0 <= j < out@.len() ==> datum_as(#[trigger] cells@[j], DType::Int64) == match out@[j] {
                    Some(v) => Datum::Int64(v),
                    None => Datum::Null,
                },
    {
        out.push(
            match cell {
                ColumnData::I64(v) => v,
                _ => None,
            },
        );
    }
    assert(SeriesData::Int64(out).entries() =~= cells@.map_values(
        |c: ColumnData<'_>| datum_as(c, DType::Int64),
    ));
    out
}

/// The cells of a column of 32-bit floating-point numbers; null stands for `NULL` and for cells of
/// another type.
fn float32_entries(cells: Vec<ColumnData<'_>>) -> (entries: Vec<Option<u32>>)
    ensures
        SeriesData::Float32(entries).entries() == cells@.map_values(
            |c: ColumnData<'_>| datum_as(c, DType::Float32),
        ),
{
    let mut out: Vec<Option<u32>> = Vec::new();
    for cell in it: cells
        invariant
            it.seq() == cells@,
            out@.len() == it.index(),
            forall|j: int|
                0 <= j < out@.len() ==> datum_as(#[trigger] cells@[j], DType::Float32) == match out@[j] {
                    Some(v) => Datum::Float32(v),
                    None => Datum::Null,
                },
    {
        out.push(
            match cell {
                ColumnData::F32(v) => v,
                _ => None,
            },
        );
    }
    assert(SeriesData::Float32(out).entries() =~= cells@.map_values(
        |c: ColumnData<'_>| datum_as(c, DType::Float32),
    ));
    out
}

/// The cells of a column of 64-bit floating-point numbers; null stands for `NULL` and for cells of
/// another type.
fn float64_entries(cells: Vec<ColumnData<'_>>) -> (entries: Vec<Option<u64>>)
    ensures
        SeriesData::Float64(entries).entries() == cells@.map_values(
            |c: ColumnData<'_>| datum_as(c, DType::Float64),
        ),
{
    let mut out: Vec<Option<u64>> = Vec::new();
    for cell in it: cells
        invariant
            it.seq() == cells@,
            out@.len() == it.index(),
            forall|j: int|
                0 <= j < out@.len() ==> datum_as(#[trigger] cells@[j], DType::Float64) == match out@[j] {
                    Some(v) => Datum::Float64(v),
                    None => Datum::Null,
                },
    {
        out.push(
            match cell {
                ColumnData::F64(v) => v,
                _ => None,
            },
        );
    }
    assert(SeriesData::Float64(out).entries() =~= cells@.map_values(
        |c: ColumnData<'_>| datum_as(c, DType::Float64),
    ));
    out
}

/// The cells of a column of truth values; null stands for `NULL` and for cells of
/// another type.
fn boolean_entries(cells: Vec<ColumnData<'_>>) -> (entries: Vec<Option<bool>>)
    ensures
        SeriesData::Boolean(entries).entries() == cells@.map_values(
            |c: ColumnData<'_>| datum_as(c, DType::Boolean),
        ),
{
    let mut out: Vec<Option<bool>> = Vec::new();
    for cell in it: cells
        invariant
            it.seq() == cells@,
            out@.len() == it.index(),
            forall|j: int|
                0 <= j < out@.len() ==> datum_as(#[trigger] cells@[j], DType::Boolean) == match out@[j] {
                    Some(v) => Datum::Boolean(v),
                    None => Datum::Null,
                },
    {
        out.push(
            match cell {
                ColumnData::Bit(v) => v,
                _ => None,
            },
        );
    }
    assert(SeriesData::Boolean(out).entries() =~= cells@.map_values(
        |c: ColumnData<'_>| datum_as(c, DType::Boolean),
    ));
    out
}

/// The cells of a column of texts; null stands for `NULL` and for cells of
/// another type.
fn string_entries(cells: Vec<ColumnData<'_>>) -> (entries: Vec<Option<String>>)
    ensures
        SeriesData::String(entries).entries() == cells@.map_values(
            |c: ColumnData<'_>| datum_as(c, DType::String),
        ),
{
    let mut out: Vec<Option<String>> = Vec::new();
    for cell in it: cells
        invariant
            it.seq() == cells@,
            out@.len() == it.index(),
            forall|j: int|
                0 <= j < out@.len() ==> datum_as(#[trigger] cells@[j], DType::String) == match out@[j] {
                    Some(v) => Datum::String(v@),
                    None => Datum::Null,
                },
    {
        out.push(
            match cell {
                ColumnData::String(v) => extract_string(v),
                _ => None,
            },
        );
    }
    assert(SeriesData::String(out).entries() =~= cells@.map_values(
        |c: ColumnData<'_>| datum_as(c, DType::String),
    ));
    out
}

/// The data type that the type of a cell stands for.
pub fn declared_dtype(data: &ColumnData<'_>) -> (dtype: Option<DType>)
    ensures
        dtype == cell_dtype(*data),
{
    match data {
        ColumnData::I32(_) => Some(DType::Int32),
        ColumnData::I64(_) => Some(DType::Int64),
        ColumnData::F32(_) => Some(DType::Float32),
        ColumnData::F64(_) => Some(DType::Float64),
        ColumnData::Bit(_) => Some(DType::Boolean),
        ColumnData::String(_) => Some(DType::String),
        _ => None,
    }
}

/// A series of the cells of a column. Its data type is that of the first cell,
/// whether or not that cell is `NULL`; cells of another type become null. Where the
/// type of the first cell has no counterpart, the column is refused.
pub fn try_from(col: TiberiusColumn<'_>) -> (series: Result<Series, UnsupportedColumn>)
    requires
        declared_view(col.name@, col.data@) matches Some(view) ==> entries_fit(view.values),
    ensures
        match declared_view(col.name@, col.data@) {
            Some(view) => series is Ok && series_view(series->Ok_0) == view,
            None => series is Err && series->Err_0.column@ == col.name@,
        },
{
    let name = col.name;
    let cells = col.data;
    if cells.len() == 0 {
        let series = series_full_null(name.as_str(), 0, DType::String);
        assert(series_values(series) =~= Seq::empty());
        return Ok(series);
    }
    let data = match declared_dtype(&cells[0]) {
        Some(DType::Int32) => SeriesData::Int32(int32_entries(cells)),
        Some(DType::Int64) => SeriesData::Int64(int64_entries(cells)),
        Some(DType::Float32) => SeriesData::Float32(float32_entries(cells)),
        Some(DType::Float64) => SeriesData::Float64(float64_entries(cells)),
        Some(DType::Boolean) => SeriesData::Boolean(boolean_entries(cells)),
        Some(DType::String) => SeriesData::String(string_entries(cells)),
        _ => {
            return Err(UnsupportedColumn { column: name });
        },
    };
    Ok(series_new(name.as_str(), data))
}

/// The entry that a cell becomes in a column that keeps the types of its values. A
/// small integer is an integer of 16 bits; a tiny one, which has no sign, is one of 8
/// bits where that is wide enough. `NULL`, and every value of a type that has no
/// counterpart here, becomes null.
pub open spec fn native(data: ColumnData<'_>) -> Datum {
    match data {
        ColumnData::U8(Some(v)) => if v <= 127 {
            Datum::Int8(v as i8)
        } else {
            Datum::Int16(v as i16)
        },
        ColumnData::I16(Some(v)) => Datum::Int16(v),
        _ => datum(data),
    }
}

/// The entries that the cells of a column become where their types are kept.
pub open spec fn native_data(cells: Seq<ColumnData<'_>>) -> Seq<Datum> {
    cells.map_values(|c: ColumnData<'_>| native(c))
}

/// Whether the values of the type of a cell have a counterpart.
pub open spec fn covered(data: ColumnData<'_>) -> bool {
    data is U8 || data is I16 || cell_dtype(data) is Some
}

/// Whether a column keeps the types of its cells: it holds their values, brought to
/// their supertype, which for cells of one type is that type. Where no cell becomes a
/// value, the column has the data type that the metadata names, if it names one.
pub open spec fn typed(
    name: Seq<char>,
    cells: Seq<ColumnData<'_>>,
    dtype: Option<DType>,
    view: ColumnView,
) -> bool {
    match dtype {
        Some(t) if supertype(native_data(cells)) == DType::Null => view == (ColumnView {
            name,
            dtype: t,
            values: native_data(cells),
        }),
        _ => unified(name, native_data(cells), view),
    }
}

/// Where no entry tells a data type, all are null.
pub proof fn null_supertype(values: Seq<Datum>)
    ensures
        supertype(values) == DType::Null <==> forall|i: int|
            0 <= i < values.len() ==> #[trigger] values[i] == Datum::Null,
{
    if supertype(values) == DType::Null {
        assert forall|i: int| 0 <= i < values.len() implies #[trigger] values[i]
            == Datum::Null by {
            assert(!has_dtype(values, values[i].dtype()) || values[i].dtype() == DType::Null);
        }
    }
}

/// The entry that a cell becomes in a column that keeps the types of its values.
pub fn native_value<'b>(data: &'b ColumnData<'_>) -> (value: Value<'b>)
    ensures
        value@ == native(*data),
{
    match data {
        ColumnData::U8(Some(v)) => if *v <= 127 {
            Value::Int8(*v as i8)
        } else {
            Value::Int16(*v as i16)
        },
        ColumnData::I16(Some(v)) => Value::Int16(*v),
        _ => cell_value(data),
    }
}

/// A series of the cells of a column, of which the types are kept; the metadata may
/// name a data type for where no cell tells one.
pub fn typed_series(col: &TiberiusColumn<'_>, dtype: Option<DType>) -> (series: Series)
    requires
        column_fits(col.data@),
    ensures
        typed(col.name@, col.data@, dtype, series_view(series)),
{
    let mut values: Vec<Value<'_>> = Vec::new();
    let mut all_null = true;
    let mut i: usize = 0;
    while i < col.data.len()
        invariant
            i <= col.data@.len(),
            values@.len() == i,
            forall|j: int| 0 <= j < i ==> (#[trigger] values@[j])@ == native(col.data@[j]),
            all_null <==> forall|j: int| 0 <= j < i ==> (#[trigger] values@[j])@ == Datum::Null,
        decreases col.data@.len() - i,
    {
        let value = native_value(&col.data[i]);
        let is_null = match &value {
            Value::Null => true,
            _ => false,
        };
        let ghost before = values@;
        values.push(value);
        proof {
            assert(values@[i as int] == value);
            assert(forall|j: int| 0 <= j < i ==> #[trigger] before[j] == values@[j]);
        }
        all_null = all_null && is_null;
        i = i + 1;
    }
    proof {
        let entries = native_data(col.data@);
        assert(values@.map_values(|v: Value<'_>| v@) =~= entries);
        assert forall|j: int| 0 <= j < entries.len() implies match #[trigger] entries[j] {
            Datum::String(s) => text_fits(s),
            _ => true,
        } by {
            assert(data_of(col.data@)[j] == datum(col.data@[j]));
        }
        null_supertype(entries);
        assert forall|j: int| 0 <= j < entries.len() implies #[trigger] entries[j]
            == values@[j]@ by {}
        assert(all_null <==> supertype(entries) == DType::Null) by {
            if supertype(entries) == DType::Null {
                assert forall|j: int| 0 <= j < values@.len() implies (#[trigger] values@[j])@
                    == Datum::Null by {
                    assert(entries[j] == Datum::Null);
                }
            }
        }
    }
    match dtype {
        Some(t) if all_null => {
            let series = series_full_null(col.name.as_str(), col.data.len(), t);
            assert(series_values(series) =~= native_data(col.data@));
            series
        },
        _ => unified_series(col.name.as_str(), &values),
    }
}

/// The texts of a column.
pub open spec fn texts(column: Seq<String>) -> Seq<Seq<char>> {
    column.map_values(|s: String| s@)
}

/// A column of texts.
pub open spec fn text_view(name: Seq<char>, texts: Seq<Seq<char>>) -> ColumnView {
    ColumnView {
        name,
        dtype: DType::String,
        values: texts.map_values(|s: Seq<char>| Datum::String(s)),
    }
}

/// Whether polars can hold a column of texts.
pub open spec fn texts_fit(texts: Seq<Seq<char>>) -> bool {
    length_fits(texts.len()) && forall|i: int|
        0 <= i < texts.len() ==> text_fits(#[trigger] texts[i])
}

/// Whether polars can hold a column of texts.
pub fn strings_fit(column: &Vec<String>) -> (fit: bool)
    ensures
        fit == texts_fit(texts(column@)),
{
    if column.len() >= 0xffff_ffff {
        return false;
    }
    let mut k: usize = 0;
    while k < column.len()
        invariant
            k <= column@.len(),
            column@.len() < 0xffff_ffff,
            forall|j: int| 0 <= j < k ==> text_fits(#[trigger] texts(column@)[j]),
        decreases column@.len() - k,
    {
        if column[k].as_str().as_bytes().len() > 0xffff_ffff {
            assert(!text_fits(texts(column@)[k as int]));
            return false;
        }
        assert(text_fits(texts(column@)[k as int]));
        k = k + 1;
    }
    true
}

/// Whether polars can hold the cells of a column.
pub fn cells_fit(column: &Vec<ColumnData<'_>>) -> (fit: bool)
    ensures
        fit == column_fits(column@),
{
    if column.len() >= 0xffff_ffff {
        return false;
    }
    let mut k: usize = 0;
    while k < column.len()
        invariant
            k <= column@.len(),
            column@.len() < 0xffff_ffff,
            forall|j: int|
                0 <= j < k ==> match #[trigger] data_of(column@)[j] {
                    Datum::String(s) => text_fits(s),
                    _ => true,
                },
        decreases column@.len() - k,
    {
        match cell_value(&column[k]) {
            Value::String(s) => {
                if s.as_bytes().len() > 0xffff_ffff {
                    assert(data_of(column@)[k as int] == Datum::String(s@));
                    return false;
                }
            },
            _ => {},
        }
        k = k + 1;
    }
    true
}

/// A series of texts, none of them null.
pub fn text_series(name: &str, column: Vec<String>) -> (series: Series)
    requires
        texts_fit(texts(column@)),
    ensures
        series_view(series) == text_view(name@, texts(column@)),
{
    proof {
        let entries = SeriesData::Text(column).entries();
        assert forall|j: int| 0 <= j < entries.len() implies match #[trigger] entries[j] {
            Datum::String(s) => text_fits(s),
            _ => true,
        } by {
            assert(text_fits(texts(column@)[j]));
        }
    }
    let series = series_new(name, SeriesData::Text(column));
    assert(series_values(series) =~= text_view(name@, texts(column@)).values);
    series
}

/// A column that polars can hold as it is, it can also hold with the data type of its
/// first cell.
pub proof fn fitting_column_fits_declared(name: Seq<char>, cells: Seq<ColumnData<'_>>)
    requires
        column_fits(cells),
    ensures
        declared_view(name, cells) matches Some(view) ==> entries_fit(view.values),
{
    if let Some(view) = declared_view(name, cells) {
        assert forall|i: int| 0 <= i < view.values.len() implies match #[trigger] view.values[i] {
            Datum::String(s) => text_fits(s),
            _ => true,
        } by {
            assert(data_of(cells)[i] == datum(cells[i]));
        }
    }
}

/// Cells of one type give a column of that type that holds exactly their values, null
/// for `NULL`, as long as one of them is not `NULL`.
pub proof fn uniform_column_keeps_its_values(
    name: Seq<char>,
    cells: Seq<ColumnData<'_>>,
    dtype: DType,
    witness: int,
    view: ColumnView,
)
    requires
        forall|i: int| 0 <= i < cells.len() ==> cell_dtype(#[trigger] cells[i]) == Some(dtype),
        0 <= witness < cells.len(),
        datum(cells[witness]) != Datum::Null,
    ensures
        inferred(name, cells, view) <==> view == (ColumnView {
            name,
            dtype,
            values: data_of(cells),
        }),
{
    let values = data_of(cells);
    assert forall|i: int| 0 <= i < values.len() implies (#[trigger] values[i]).dtype() == dtype
        || values[i] == Datum::Null by {
        assert(cell_dtype(cells[i]) == Some(dtype));
    }
    assert(values[witness].dtype() == dtype);
    assert(has_dtype(values, dtype));
    assert(supertype(values) == dtype);
    if inferred(name, cells, view) {
        assert forall|i: int| 0 <= i < values.len() implies view.values[i] == #[trigger] values[i] by {
            assert(values[i] == datum(cells[i]));
        }
        assert(view.values =~= values);
    }
}

/// Both ways to a series agree on a column of cells of one type: they hold the same
/// entries, and where one of them is not null they have the same data type.
pub proof fn conversions_agree(
    name: Seq<char>,
    cells: Seq<ColumnData<'_>>,
    dtype: DType,
    view: ColumnView,
)
    requires
        cells.len() > 0,
        forall|i: int| 0 <= i < cells.len() ==> cell_dtype(#[trigger] cells[i]) == Some(dtype),
    ensures
        declared_view(name, cells) == Some(ColumnView { name, dtype, values: data_of(cells) }),
        inferred(name, cells, view) <==> view == (ColumnView {
            name,
            dtype: if forall|i: int|
                0 <= i < cells.len() ==> datum(#[trigger] cells[i]) == Datum::Null {
                DType::Null
            } else {
                dtype
            },
            values: data_of(cells),
        }),
{
    let values = data_of(cells);
    assert(cell_dtype(cells[0]) == Some(dtype));
    assert(cells.map_values(|c: ColumnData<'_>| datum_as(c, dtype)) =~= values);
    null_supertype(values);
    if forall|i: int| 0 <= i < cells.len() ==> datum(#[trigger] cells[i]) == Datum::Null {
        assert forall|i: int| 0 <= i < values.len() implies #[trigger] values[i]
            == Datum::Null by {
            assert(datum(cells[i]) == Datum::Null);
        }
        if inferred(name, cells, view) {
            assert forall|i: int| 0 <= i < values.len() implies view.values[i]
                == #[trigger] values[i] by {
                assert(values[i] == datum(cells[i]));
            }
            assert(view.values =~= values);
        }
    } else {
        let w = choose|i: int| 0 <= i < cells.len() && datum(#[trigger] cells[i]) != Datum::Null;
        uniform_column_keeps_its_values(name, cells, dtype, w, view);
    }
}

/// Every entry of a column of values brought to their supertype has the data type of
/// the column or is null, and null is only what was null.
pub proof fn entries_have_the_dtype(
    name: Seq<char>,
    values: Seq<Datum>,
    view: ColumnView,
    i: int,
)
    requires
        unified(name, values, view),
        0 <= i < values.len(),
    ensures
        view.values[i] == Datum::Null || view.values[i].dtype() == view.dtype,
        view.values[i] == Datum::Null <==> values[i] == Datum::Null,
{
    assert(coerces(
        values[i],
        view.dtype,
        view.values[i],
        any_value_coercion(values[i], view.dtype),
    ));
    assert(has_dtype(values, values[i].dtype()));
}

/// `NULL`, and every value of a type that has no counterpart, becomes null in every
/// column, whatever the data type of the column; no column gains or loses entries.
pub proof fn null_stays_null(
    name: Seq<char>,
    cells: Seq<ColumnData<'_>>,
    dtype: Option<DType>,
    i: int,
    view: ColumnView,
)
    requires
        0 <= i < cells.len(),
        lacks_value(cells[i]) || !covered(cells[i]),
        typed(name, cells, dtype, view) || inferred(name, cells, view),
    ensures
        view.values.len() == cells.len(),
        view.values[i] == Datum::Null,
{
    assert(data_of(cells)[i] == Datum::Null);
    assert(native_data(cells)[i] == Datum::Null);
}

/// In a column that keeps the types of its cells, a value of a type that has a
/// counterpart is never lost: only its `NULL` becomes null.
pub proof fn only_null_becomes_null(
    name: Seq<char>,
    cells: Seq<ColumnData<'_>>,
    dtype: Option<DType>,
    i: int,
    view: ColumnView,
)
    requires
        0 <= i < cells.len(),
        covered(cells[i]),
        typed(name, cells, dtype, view),
    ensures
        view.values.len() == cells.len(),
        view.values[i] == Datum::Null <==> lacks_value(cells[i]),
{
    let values = native_data(cells);
    assert(values[i] == native(cells[i]));
    null_supertype(values);
    if unified(name, values, view) {
        entries_have_the_dtype(name, values, view, i);
    }
}

} // verus!
