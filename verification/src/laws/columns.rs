//! What holds of the columns that cells become.

use crate::column::ColumnData;
use crate::metadata::{metadata_dtype, ColumnType};
use crate::series::{
    any_value_coercion, cell_dtype, coerces, column_fits, covered, data_of, datum, declared_view,
    entries_fit, has_dtype, inferred, native, native_data, null_supertype, series_dtype,
    series_name, series_values, series_view, supertype, text_fits, text_view, texts_fit, typed,
    ColumnView, DType, Datum, SeriesData, Value,
};
use crate::text::{decimal, grouped, grouped_decimal, three_digits};
use polars::prelude::Series;
use vstd::prelude::*;
use vstd::utf8::encode_utf8;

verus! {

/// What is said of a series is what polars holds: its name, data type and entries.
pub proof fn series_are_seen_as_they_are(series: Series)
    ensures
        series_view(series).name == series_name(series),
        series_view(series).dtype == series_dtype(series),
        series_view(series).values == series_values(series),
{
}

/// What is handed to polars stands for exactly the value that it holds, and entries of
/// one data type stand for exactly theirs; a missing one is null.
pub proof fn entries_stand_for_their_values(value: Value<'_>, data: SeriesData, i: int)
    ensures
        match value {
            Value::Null => value@ == Datum::Null,
            Value::Boolean(v) => value@ == Datum::Boolean(v),
            Value::Int8(v) => value@ == Datum::Int8(v),
            Value::Int16(v) => value@ == Datum::Int16(v),
            Value::Int32(v) => value@ == Datum::Int32(v),
            Value::Int64(v) => value@ == Datum::Int64(v),
            Value::Float32(v) => value@ == Datum::Float32(v),
            Value::Float64(v) => value@ == Datum::Float64(v),
            Value::String(v) => value@ == Datum::String(v@),
        },
        data matches SeriesData::Int32(v) ==> data.dtype() == DType::Int32 && data.entries().len()
            == v@.len() && (0 <= i < v@.len() ==> data.entries()[i] == match v@[i] {
            Some(x) => Datum::Int32(x),
            None => Datum::Null,
        }),
        data matches SeriesData::Int64(v) ==> data.dtype() == DType::Int64 && data.entries().len()
            == v@.len() && (0 <= i < v@.len() ==> data.entries()[i] == match v@[i] {
            Some(x) => Datum::Int64(x),
            None => Datum::Null,
        }),
        data matches SeriesData::Float32(v) ==> data.dtype() == DType::Float32 && data.entries().len()
            == v@.len() && (0 <= i < v@.len() ==> data.entries()[i] == match v@[i] {
            Some(x) => Datum::Float32(x),
            None => Datum::Null,
        }),
        data matches SeriesData::Float64(v) ==> data.dtype() == DType::Float64 && data.entries().len()
            == v@.len() && (0 <= i < v@.len() ==> data.entries()[i] == match v@[i] {
            Some(x) => Datum::Float64(x),
            None => Datum::Null,
        }),
        data matches SeriesData::Boolean(v) ==> data.dtype() == DType::Boolean && data.entries().len()
            == v@.len() && (0 <= i < v@.len() ==> data.entries()[i] == match v@[i] {
            Some(x) => Datum::Boolean(x),
            None => Datum::Null,
        }),
        data matches SeriesData::String(v) ==> data.dtype() == DType::String && data.entries().len()
            == v@.len() && (0 <= i < v@.len() ==> data.entries()[i] == match v@[i] {
            Some(x) => Datum::String(x@),
            None => Datum::Null,
        }),
        data matches SeriesData::Text(v) ==> data.dtype() == DType::String && data.entries().len()
            == v@.len() && (0 <= i < v@.len() ==> data.entries()[i] == Datum::String(v@[i]@)),
{
}

/// Polars can hold fewer than 4294967295 entries, and texts of at most 4294967295 bytes
/// in UTF-8; nothing else keeps a column of entries, cells or texts from it.
pub proof fn columns_that_polars_can_hold(
    values: Seq<Datum>,
    cells: Seq<ColumnData<'_>>,
    texts: Seq<Seq<char>>,
)
    ensures
        entries_fit(values) <==> values.len() < 4_294_967_295 && forall|i: int|
            0 <= i < values.len() ==> (#[trigger] values[i] matches Datum::String(s) ==> encode_utf8(
                s,
            ).len() <= 4_294_967_295),
        column_fits(cells) <==> cells.len() < 4_294_967_295 && forall|i: int|
            0 <= i < cells.len() ==> (#[trigger] cells[i] matches ColumnData::String(Some(s))
                ==> encode_utf8(s@).len() <= 4_294_967_295),
        texts_fit(texts) <==> texts.len() < 4_294_967_295 && forall|i: int|
            0 <= i < texts.len() ==> encode_utf8(#[trigger] texts[i]).len() <= 4_294_967_295,
{
    let data = data_of(cells);
    assert(data.len() == cells.len());
    assert forall|i: int| 0 <= i < cells.len() implies #[trigger] data[i] == datum(cells[i]) by {}
    if column_fits(cells) {
        assert forall|i: int| 0 <= i < cells.len() implies (#[trigger] cells[i] matches ColumnData::String(
            Some(s),
        ) ==> encode_utf8(s@).len() <= 4_294_967_295) by {
            assert(data[i] == datum(cells[i]));
        }
    }
    if texts_fit(texts) {
        assert forall|i: int| 0 <= i < texts.len() implies encode_utf8(#[trigger] texts[i]).len()
            <= 4_294_967_295 by {
            assert(text_fits(texts[i]));
        }
    }
}

/// A column of texts has its name, the data type of texts, and each text as an entry;
/// the texts of strings are theirs, in order.
pub proof fn columns_of_texts_hold_them(
    name: Seq<char>,
    texts: Seq<Seq<char>>,
    strings: Seq<String>,
)
    ensures
        crate::series::texts(strings).len() == strings.len(),
        forall|i: int|
            0 <= i < strings.len() ==> #[trigger] crate::series::texts(strings)[i] == strings[i]@,
        text_view(name, texts).name == name,
        text_view(name, texts).dtype == DType::String,
        text_view(name, texts).values.len() == texts.len(),
        forall|i: int|
            0 <= i < texts.len() ==> #[trigger] text_view(name, texts).values[i] == Datum::String(
                texts[i],
            ),
{
}

/// The last three digits of a number are those of its remainder by a thousand.
proof fn last_three_digits(v: int)
    requires
        v >= 0,
    ensures
        v % 1000 / 100 == v / 100 % 10,
        v % 1000 / 10 % 10 == v / 10 % 10,
        v % 1000 % 10 == v % 10,
{
    let (q, r) = (v / 1000, v % 1000);
    assert(v / 100 == 10 * q + r / 100);
    assert(v / 10 == 100 * q + r / 10);
}

/// A decimal text is the digit alone below ten; from ten on the last digit follows the
/// text of the tenth part.
pub proof fn decimal_goes_digit_by_digit(n: nat)
    ensures
        n < 10 ==> decimal(n) == seq![('0' as int + n) as char],
        n >= 10 ==> decimal(n) == decimal(n / 10).push(('0' as int + n % 10) as char),
{
}

/// Digits in groups are those of the number below a thousand; from a thousand on the
/// separator and the last three digits follow the groups of the thousandth part. Below
/// zero a minus sign precedes them.
pub proof fn grouped_digits_go_by_thousands(v: int, separator: Seq<char>)
    ensures
        0 <= v < 1000 ==> grouped_decimal(v, separator) == decimal(v as nat),
        v >= 1000 ==> grouped_decimal(v, separator) == grouped_decimal(v / 1000, separator)
            + separator + seq![
            ('0' as int + v / 100 % 10) as char,
            ('0' as int + v / 10 % 10) as char,
            ('0' as int + v % 10) as char,
        ],
        v < 0 ==> grouped_decimal(v, separator) == seq!['-'] + grouped_decimal(-v, separator),
{
    if v >= 1000 {
        let n = v as nat;
        last_three_digits(v);
        assert(n / 1000 == v / 1000 && n % 1000 == v % 1000);
        assert(grouped_decimal(v / 1000, separator) == grouped(n / 1000, separator));
        assert(three_digits((n % 1000) as int) == seq![
            ('0' as int + v / 100 % 10) as char,
            ('0' as int + v / 10 % 10) as char,
            ('0' as int + v % 10) as char,
        ]);
    }
}

/// Which data types the values of cells that keep their types have.
#[verifier::spinoff_prover]
#[verifier::rlimit(40)]
proof fn native_dtypes(cells: Seq<ColumnData<'_>>)
    ensures
        has_dtype(native_data(cells), DType::Int32) <==> exists|i: int|
            0 <= i < cells.len() && (#[trigger] cells[i] matches ColumnData::I32(Some(_))),
        has_dtype(native_data(cells), DType::Int64) <==> exists|i: int|
            0 <= i < cells.len() && (#[trigger] cells[i] matches ColumnData::I64(Some(_))),
        has_dtype(native_data(cells), DType::Float32) <==> exists|i: int|
            0 <= i < cells.len() && (#[trigger] cells[i] matches ColumnData::F32(Some(_))),
        has_dtype(native_data(cells), DType::Float64) <==> exists|i: int|
            0 <= i < cells.len() && (#[trigger] cells[i] matches ColumnData::F64(Some(_))),
        has_dtype(native_data(cells), DType::Boolean) <==> exists|i: int|
            0 <= i < cells.len() && (#[trigger] cells[i] matches ColumnData::Bit(Some(_))),
        has_dtype(native_data(cells), DType::String) <==> exists|i: int|
            0 <= i < cells.len() && (#[trigger] cells[i] matches ColumnData::String(Some(_))),
        has_dtype(native_data(cells), DType::Int16) <==> (exists|i: int|
            0 <= i < cells.len() && (#[trigger] cells[i] matches ColumnData::I16(Some(_)))) || (exists|
            i: int,
        |
            0 <= i < cells.len() && (#[trigger] cells[i] matches ColumnData::U8(Some(v)) && v > 127)),
        !has_dtype(native_data(cells), DType::Int16) ==> (has_dtype(native_data(cells), DType::Int8)
            <==> exists|i: int|
            0 <= i < cells.len() && (#[trigger] cells[i] matches ColumnData::U8(Some(_)))),
{
    let values = native_data(cells);
    assert forall|i: int|
        #![trigger cells[i]]
        #![trigger values[i]]
        0 <= i < cells.len() implies values[i] == native(cells[i]) by {
    }
}

/// The data type that is inferred from cells is that of texts where one of them is a
/// text; else the widest floating-point type among them, where wide integers count as
/// floating-point numbers of 64 bits beside one of 32; else the widest integer type; else
/// that of truth values. Only values count, `NULL` does not.
#[verifier::spinoff_prover]
#[verifier::rlimit(40)]
pub proof fn inferred_dtype_is_the_widest(
    name: Seq<char>,
    cells: Seq<ColumnData<'_>>,
    view: ColumnView,
)
    requires
        inferred(name, cells, view),
    ensures
        view.name == name,
        view.values.len() == cells.len(),
        view.dtype == if (exists|i: int|
                0 <= i < cells.len() && (#[trigger] cells[i] matches ColumnData::String(Some(_)))) {
            DType::String
        } else if (exists|i: int|
                0 <= i < cells.len() && (#[trigger] cells[i] matches ColumnData::F64(Some(_)))) || ((exists|i: int|
                0 <= i < cells.len() && (#[trigger] cells[i] matches ColumnData::F32(Some(_)))) && ((exists|i: int|
                0 <= i < cells.len() && (#[trigger] cells[i] matches ColumnData::I32(Some(_)))) || (exists|i: int|
                0 <= i < cells.len() && (#[trigger] cells[i] matches ColumnData::I64(Some(_)))))) {
            DType::Float64
        } else if (exists|i: int|
                0 <= i < cells.len() && (#[trigger] cells[i] matches ColumnData::F32(Some(_)))) {
            DType::Float32
        } else if (exists|i: int|
                0 <= i < cells.len() && (#[trigger] cells[i] matches ColumnData::I64(Some(_)))) {
            DType::Int64
        } else if (exists|i: int|
                0 <= i < cells.len() && (#[trigger] cells[i] matches ColumnData::I32(Some(_)))) {
            DType::Int32
        } else if (exists|i: int|
                0 <= i < cells.len() && (#[trigger] cells[i] matches ColumnData::Bit(Some(_)))) {
            DType::Boolean
        } else {
            DType::Null
        },
{
    let values = data_of(cells);
    assert forall|i: int|
        #![trigger cells[i]]
        #![trigger values[i]]
        0 <= i < cells.len() implies values[i] == datum(cells[i]) by {
    }
}

/// In a column whose data type is inferred, every entry keeps the payload of its cell:
/// unchanged where the cell is of the type of the column, as the same number where an
/// integer or truth value stands among wider integers, as its word or digits among
/// texts. `NULL` is null, and so is every cell of another type.
#[verifier::spinoff_prover]
#[verifier::rlimit(40)]
pub proof fn inferred_entries_keep_their_payloads(
    name: Seq<char>,
    cells: Seq<ColumnData<'_>>,
    view: ColumnView,
    i: int,
)
    requires
        inferred(name, cells, view),
        0 <= i < cells.len(),
    ensures
        ({
            let entry = view.values[i];
            match cells[i] {
                ColumnData::String(Some(s)) => view.dtype == DType::String && entry == Datum::String(
                    s@,
                ),
                ColumnData::F64(Some(b)) => match view.dtype {
                    DType::Float64 => entry == Datum::Float64(b),
                    DType::String => entry == any_value_coercion(Datum::Float64(b), DType::String)
                        && entry is String,
                    _ => false,
                },
                ColumnData::F32(Some(b)) => match view.dtype {
                    DType::Float32 => entry == Datum::Float32(b),
                    DType::Float64 => if b % 0x8000_0000 > 0x7f80_0000 {
                        entry matches Datum::Float64(w) && w % 0x8000_0000_0000_0000
                            > 0x7ff0_0000_0000_0000
                    } else {
                        entry == any_value_coercion(Datum::Float32(b), DType::Float64)
                    },
                    DType::String => entry == any_value_coercion(Datum::Float32(b), DType::String)
                        && entry is String,
                    _ => false,
                },
                ColumnData::I64(Some(v)) => match view.dtype {
                    DType::Int64 => entry == Datum::Int64(v),
                    DType::Float64 => entry == any_value_coercion(Datum::Int64(v), DType::Float64)
                        && entry is Float64,
                    DType::String => exists|separator: Seq<char>|
                        separator.len() <= 1 && entry == Datum::String(
                            #[trigger] grouped_decimal(v as int, separator),
                        ),
                    _ => false,
                },
                ColumnData::I32(Some(v)) => match view.dtype {
                    DType::Int32 => entry == Datum::Int32(v),
                    DType::Int64 => entry == Datum::Int64(v as i64),
                    DType::Float64 => entry == any_value_coercion(Datum::Int32(v), DType::Float64)
                        && entry is Float64,
                    DType::String => exists|separator: Seq<char>|
                        separator.len() <= 1 && entry == Datum::String(
                            #[trigger] grouped_decimal(v as int, separator),
                        ),
                    _ => false,
                },
                ColumnData::Bit(Some(b)) => match view.dtype {
                    DType::Boolean => entry == Datum::Boolean(b),
                    DType::Int32 => entry == Datum::Int32(
                        if b {
                            1
                        } else {
                            0
                        },
                    ),
                    DType::Int64 => entry == Datum::Int64(
                        if b {
                            1
                        } else {
                            0
                        },
                    ),
                    DType::Float32 => entry == Datum::Float32(
                        if b {
                            0x3f80_0000
                        } else {
                            0
                        },
                    ),
                    DType::Float64 => entry == Datum::Float64(
                        if b {
                            0x3ff0_0000_0000_0000
                        } else {
                            0
                        },
                    ),
                    DType::String => entry == Datum::String(
                        if b {
                            seq!['t', 'r', 'u', 'e']
                        } else {
                            seq!['f', 'a', 'l', 's', 'e']
                        },
                    ),
                    _ => false,
                },
                _ => entry == Datum::Null,
            }
        }),
{
    bool_words();
    let values = data_of(cells);
    assert(values[i] == datum(cells[i]));
    assert(has_dtype(values, values[i].dtype()));
    assert(coerces(
        values[i],
        view.dtype,
        view.values[i],
        any_value_coercion(values[i], view.dtype),
    ));
    assert forall|j: int| 0 <= j < values.len() implies (#[trigger] values[j]).dtype()
        != DType::Int16 && values[j].dtype() != DType::Int8 by {
        assert(values[j] == datum(cells[j]));
    }
}

proof fn bool_words()
    ensures
        "true"@ == seq!['t', 'r', 'u', 'e'],
        "false"@ == seq!['f', 'a', 'l', 's', 'e'],
{
    reveal_strlit("true");
    reveal_strlit("false");
    assert("true"@ =~= seq!['t', 'r', 'u', 'e']);
    assert("false"@ =~= seq!['f', 'a', 'l', 's', 'e']);
}

/// The data type of a column that keeps the types of its cells is the widest among its
/// values, as for one that is inferred, with small integers among the integers: of 16
/// bits, and the tiny ones of 8 where that is wide enough. Where there are no values it
/// is that of the metadata, if the metadata names one.
#[verifier::spinoff_prover]
#[verifier::rlimit(40)]
pub proof fn typed_dtype_is_the_widest(
    name: Seq<char>,
    cells: Seq<ColumnData<'_>>,
    dtype: Option<DType>,
    view: ColumnView,
)
    requires
        typed(name, cells, dtype, view),
    ensures
        view.name == name,
        view.values.len() == cells.len(),
        view.dtype == if (exists|i: int|
                0 <= i < cells.len() && (#[trigger] cells[i] matches ColumnData::String(Some(_)))) {
            DType::String
        } else if (exists|i: int|
                0 <= i < cells.len() && (#[trigger] cells[i] matches ColumnData::F64(Some(_)))) || ((exists|i: int|
                0 <= i < cells.len() && (#[trigger] cells[i] matches ColumnData::F32(Some(_)))) && ((exists|i: int|
                0 <= i < cells.len() && (#[trigger] cells[i] matches ColumnData::I32(Some(_)))) || (exists|i: int|
                0 <= i < cells.len() && (#[trigger] cells[i] matches ColumnData::I64(Some(_)))))) {
            DType::Float64
        } else if (exists|i: int|
                0 <= i < cells.len() && (#[trigger] cells[i] matches ColumnData::F32(Some(_)))) {
            DType::Float32
        } else if (exists|i: int|
                0 <= i < cells.len() && (#[trigger] cells[i] matches ColumnData::I64(Some(_)))) {
            DType::Int64
        } else if (exists|i: int|
                0 <= i < cells.len() && (#[trigger] cells[i] matches ColumnData::I32(Some(_)))) {
            DType::Int32
        } else if (exists|i: int|
                0 <= i < cells.len() && (#[trigger] cells[i] matches ColumnData::I16(Some(_)))) || (exists|i: int|
                0 <= i < cells.len() && (#[trigger] cells[i] matches ColumnData::U8(Some(v)) && v > 127)) {
            DType::Int16
        } else if (exists|i: int|
                0 <= i < cells.len() && (#[trigger] cells[i] matches ColumnData::U8(Some(_)))) {
            DType::Int8
        } else if (exists|i: int|
                0 <= i < cells.len() && (#[trigger] cells[i] matches ColumnData::Bit(Some(_)))) {
            DType::Boolean
        } else {
            match dtype {
                Some(t) => t,
                None => DType::Null,
            }
        },
{
    let values = native_data(cells);
    null_supertype(values);
    native_dtypes(cells);
}

/// In a column that keeps the types of its cells, every entry keeps the payload of its
/// cell, as in one whose data type is inferred; small and tiny integers are kept too.
#[verifier::spinoff_prover]
#[verifier::rlimit(40)]
pub proof fn typed_entries_keep_their_payloads(
    name: Seq<char>,
    cells: Seq<ColumnData<'_>>,
    dtype: Option<DType>,
    view: ColumnView,
    i: int,
)
    requires
        typed(name, cells, dtype, view),
        0 <= i < cells.len(),
    ensures
        view.values.len() == cells.len(),
        ({
            let entry = view.values[i];
            match cells[i] {
                ColumnData::String(Some(s)) => view.dtype == DType::String && entry == Datum::String(
                    s@,
                ),
                ColumnData::F64(Some(b)) => match view.dtype {
                    DType::Float64 => entry == Datum::Float64(b),
                    DType::String => entry == any_value_coercion(Datum::Float64(b), DType::String)
                        && entry is String,
                    _ => false,
                },
                ColumnData::F32(Some(b)) => match view.dtype {
                    DType::Float32 => entry == Datum::Float32(b),
                    DType::Float64 => if b % 0x8000_0000 > 0x7f80_0000 {
                        entry matches Datum::Float64(w) && w % 0x8000_0000_0000_0000
                            > 0x7ff0_0000_0000_0000
                    } else {
                        entry == any_value_coercion(Datum::Float32(b), DType::Float64)
                    },
                    DType::String => entry == any_value_coercion(Datum::Float32(b), DType::String)
                        && entry is String,
                    _ => false,
                },
                ColumnData::I64(Some(v)) => match view.dtype {
                    DType::Int64 => entry == Datum::Int64(v),
                    DType::Float64 => entry == any_value_coercion(Datum::Int64(v), DType::Float64)
                        && entry is Float64,
                    DType::String => exists|separator: Seq<char>|
                        separator.len() <= 1 && entry == Datum::String(
                            #[trigger] grouped_decimal(v as int, separator),
                        ),
                    _ => false,
                },
                ColumnData::I32(Some(v)) => match view.dtype {
                    DType::Int32 => entry == Datum::Int32(v),
                    DType::Int64 => entry == Datum::Int64(v as i64),
                    DType::Float64 => entry == any_value_coercion(Datum::Int32(v), DType::Float64)
                        && entry is Float64,
                    DType::String => exists|separator: Seq<char>|
                        separator.len() <= 1 && entry == Datum::String(
                            #[trigger] grouped_decimal(v as int, separator),
                        ),
                    _ => false,
                },
                ColumnData::I16(Some(v)) => match view.dtype {
                    DType::Int16 => entry == Datum::Int16(v),
                    DType::Int32 => entry == Datum::Int32(v as i32),
                    DType::Int64 => entry == Datum::Int64(v as i64),
                    DType::Float32 => entry == any_value_coercion(Datum::Int16(v), DType::Float32)
                        && entry is Float32,
                    DType::Float64 => entry == any_value_coercion(Datum::Int16(v), DType::Float64)
                        && entry is Float64,
                    DType::String => exists|separator: Seq<char>|
                        separator.len() <= 1 && entry == Datum::String(
                            #[trigger] grouped_decimal(v as int, separator),
                        ),
                    _ => false,
                },
                ColumnData::U8(Some(v)) => match view.dtype {
                    DType::Int8 => v <= 127 && entry == Datum::Int8(v as i8),
                    DType::Int16 => entry == Datum::Int16(v as i16),
                    DType::Int32 => entry == Datum::Int32(v as i32),
                    DType::Int64 => entry == Datum::Int64(v as i64),
                    DType::Float32 => entry == any_value_coercion((if v <= 127 {
                        Datum::Int8(v as i8)
                    } else {
                        Datum::Int16(v as i16)
                    }), DType::Float32) && entry is Float32,
                    DType::Float64 => entry == any_value_coercion((if v <= 127 {
                        Datum::Int8(v as i8)
                    } else {
                        Datum::Int16(v as i16)
                    }), DType::Float64) && entry is Float64,
                    DType::String => exists|separator: Seq<char>|
                        separator.len() <= 1 && entry == Datum::String(
                            #[trigger] grouped_decimal(v as int, separator),
                        ),
                    _ => false,
                },
                ColumnData::Bit(Some(b)) => match view.dtype {
                    DType::Boolean => entry == Datum::Boolean(b),
                    DType::Int8 => entry == Datum::Int8(
                        if b {
                            1
                        } else {
                            0
                        },
                    ),
                    DType::Int16 => entry == Datum::Int16(
                        if b {
                            1
                        } else {
                            0
                        },
                    ),
                    DType::Int32 => entry == Datum::Int32(
                        if b {
                            1
                        } else {
                            0
                        },
                    ),
                    DType::Int64 => entry == Datum::Int64(
                        if b {
                            1
                        } else {
                            0
                        },
                    ),
                    DType::Float32 => entry == Datum::Float32(
                        if b {
                            0x3f80_0000
                        } else {
                            0
                        },
                    ),
                    DType::Float64 => entry == Datum::Float64(
                        if b {
                            0x3ff0_0000_0000_0000
                        } else {
                            0
                        },
                    ),
                    DType::String => entry == Datum::String(
                        if b {
                            seq!['t', 'r', 'u', 'e']
                        } else {
                            seq!['f', 'a', 'l', 's', 'e']
                        },
                    ),
                    _ => false,
                },
                _ => entry == Datum::Null,
            }
        }),
{
    bool_words();
    let values = native_data(cells);
    null_supertype(values);
    assert(values[i] == native(cells[i]));
    assert(has_dtype(values, values[i].dtype()));
    if supertype(values) != DType::Null {
        assert(coerces(
            values[i],
            view.dtype,
            view.values[i],
            any_value_coercion(values[i], view.dtype),
        ));
    }
}

/// Cells of one kind, of which one is not `NULL`, become a column of the data type of
/// that kind when it is inferred, and each entry is exactly the payload of its cell.
#[verifier::spinoff_prover]
#[verifier::rlimit(40)]
pub proof fn inferred_columns_of_one_kind(
    name: Seq<char>,
    cells: Seq<ColumnData<'_>>,
    view: ColumnView,
)
    requires
        inferred(name, cells, view),
    ensures
        view.name == name,
        view.values.len() == cells.len(),
        (forall|i: int| 0 <= i < cells.len() ==> #[trigger] cells[i] is I32) && (exists|i: int|
            0 <= i < cells.len() && (#[trigger] cells[i] matches ColumnData::I32(Some(_)))) ==> {
            &&& view.dtype == DType::Int32
            &&& forall|i: int|
                0 <= i < cells.len() ==> #[trigger] view.values[i] == match cells[i] {
                    ColumnData::I32(Some(v)) => Datum::Int32(v),
                    _ => Datum::Null,
                }
        },
        (forall|i: int| 0 <= i < cells.len() ==> #[trigger] cells[i] is I64) && (exists|i: int|
            0 <= i < cells.len() && (#[trigger] cells[i] matches ColumnData::I64(Some(_)))) ==> {
            &&& view.dtype == DType::Int64
            &&& forall|i: int|
                0 <= i < cells.len() ==> #[trigger] view.values[i] == match cells[i] {
                    ColumnData::I64(Some(v)) => Datum::Int64(v),
                    _ => Datum::Null,
                }
        },
        (forall|i: int| 0 <= i < cells.len() ==> #[trigger] cells[i] is F32) && (exists|i: int|
            0 <= i < cells.len() && (#[trigger] cells[i] matches ColumnData::F32(Some(_)))) ==> {
            &&& view.dtype == DType::Float32
            &&& forall|i: int|
                0 <= i < cells.len() ==> #[trigger] view.values[i] == match cells[i] {
                    ColumnData::F32(Some(b)) => Datum::Float32(b),
                    _ => Datum::Null,
                }
        },
        (forall|i: int| 0 <= i < cells.len() ==> #[trigger] cells[i] is F64) && (exists|i: int|
            0 <= i < cells.len() && (#[trigger] cells[i] matches ColumnData::F64(Some(_)))) ==> {
            &&& view.dtype == DType::Float64
            &&& forall|i: int|
                0 <= i < cells.len() ==> #[trigger] view.values[i] == match cells[i] {
                    ColumnData::F64(Some(b)) => Datum::Float64(b),
                    _ => Datum::Null,
                }
        },
        (forall|i: int| 0 <= i < cells.len() ==> #[trigger] cells[i] is Bit) && (exists|i: int|
            0 <= i < cells.len() && (#[trigger] cells[i] matches ColumnData::Bit(Some(_)))) ==> {
            &&& view.dtype == DType::Boolean
            &&& forall|i: int|
                0 <= i < cells.len() ==> #[trigger] view.values[i] == match cells[i] {
                    ColumnData::Bit(Some(b)) => Datum::Boolean(b),
                    _ => Datum::Null,
                }
        },
        (forall|i: int| 0 <= i < cells.len() ==> #[trigger] cells[i] is String) && (exists|i: int|
            0 <= i < cells.len() && (#[trigger] cells[i] matches ColumnData::String(Some(_)))) ==> {
            &&& view.dtype == DType::String
            &&& forall|i: int|
                0 <= i < cells.len() ==> #[trigger] view.values[i] == match cells[i] {
                    ColumnData::String(Some(s)) => Datum::String(s@),
                    _ => Datum::Null,
                }
        },
{
    inferred_dtype_is_the_widest(name, cells, view);
    if (forall|i: int| 0 <= i < cells.len() ==> #[trigger] cells[i] is I32) && (exists|i: int|
        0 <= i < cells.len() && (#[trigger] cells[i] matches ColumnData::I32(Some(_)))) {
        assert(view.dtype == DType::Int32);
        assert forall|i: int| 0 <= i < cells.len() implies #[trigger] view.values[i] == match cells[i] {
            ColumnData::I32(Some(v)) => Datum::Int32(v),
            _ => Datum::Null,
        } by {
            inferred_entries_keep_their_payloads(name, cells, view, i);
        }
    }
    if (forall|i: int| 0 <= i < cells.len() ==> #[trigger] cells[i] is I64) && (exists|i: int|
        0 <= i < cells.len() && (#[trigger] cells[i] matches ColumnData::I64(Some(_)))) {
        assert(view.dtype == DType::Int64);
        assert forall|i: int| 0 <= i < cells.len() implies #[trigger] view.values[i] == match cells[i] {
            ColumnData::I64(Some(v)) => Datum::Int64(v),
            _ => Datum::Null,
        } by {
            inferred_entries_keep_their_payloads(name, cells, view, i);
        }
    }
    if (forall|i: int| 0 <= i < cells.len() ==> #[trigger] cells[i] is F32) && (exists|i: int|
        0 <= i < cells.len() && (#[trigger] cells[i] matches ColumnData::F32(Some(_)))) {
        assert(view.dtype == DType::Float32);
        assert forall|i: int| 0 <= i < cells.len() implies #[trigger] view.values[i] == match cells[i] {
            ColumnData::F32(Some(b)) => Datum::Float32(b),
            _ => Datum::Null,
        } by {
            inferred_entries_keep_their_payloads(name, cells, view, i);
        }
    }
    if (forall|i: int| 0 <= i < cells.len() ==> #[trigger] cells[i] is F64) && (exists|i: int|
        0 <= i < cells.len() && (#[trigger] cells[i] matches ColumnData::F64(Some(_)))) {
        assert(view.dtype == DType::Float64);
        assert forall|i: int| 0 <= i < cells.len() implies #[trigger] view.values[i] == match cells[i] {
            ColumnData::F64(Some(b)) => Datum::Float64(b),
            _ => Datum::Null,
        } by {
            inferred_entries_keep_their_payloads(name, cells, view, i);
        }
    }
    if (forall|i: int| 0 <= i < cells.len() ==> #[trigger] cells[i] is Bit) && (exists|i: int|
        0 <= i < cells.len() && (#[trigger] cells[i] matches ColumnData::Bit(Some(_)))) {
        assert(view.dtype == DType::Boolean);
        assert forall|i: int| 0 <= i < cells.len() implies #[trigger] view.values[i] == match cells[i] {
            ColumnData::Bit(Some(b)) => Datum::Boolean(b),
            _ => Datum::Null,
        } by {
            inferred_entries_keep_their_payloads(name, cells, view, i);
        }
    }
    if (forall|i: int| 0 <= i < cells.len() ==> #[trigger] cells[i] is String) && (exists|i: int|
        0 <= i < cells.len() && (#[trigger] cells[i] matches ColumnData::String(Some(_)))) {
        assert(view.dtype == DType::String);
        assert forall|i: int| 0 <= i < cells.len() implies #[trigger] view.values[i] == match cells[i] {
            ColumnData::String(Some(s)) => Datum::String(s@),
            _ => Datum::Null,
        } by {
            inferred_entries_keep_their_payloads(name, cells, view, i);
        }
    }
}

/// Cells of one kind, of which one is not `NULL`, become a column of the data type of
/// that kind where types are kept, whatever the metadata names, and each entry is
/// exactly the payload of its cell. Tiny integers have 8 bits, or 16 where one of them
/// is above 127.
#[verifier::spinoff_prover]
#[verifier::rlimit(40)]
pub proof fn typed_columns_of_one_kind(
    name: Seq<char>,
    cells: Seq<ColumnData<'_>>,
    dtype: Option<DType>,
    view: ColumnView,
)
    requires
        typed(name, cells, dtype, view),
    ensures
        view.name == name,
        view.values.len() == cells.len(),
        (forall|i: int| 0 <= i < cells.len() ==> #[trigger] cells[i] is I16) && (exists|i: int|
            0 <= i < cells.len() && (#[trigger] cells[i] matches ColumnData::I16(Some(_)))) ==> {
            &&& view.dtype == DType::Int16
            &&& forall|i: int|
                0 <= i < cells.len() ==> #[trigger] view.values[i] == match cells[i] {
                    ColumnData::I16(Some(v)) => Datum::Int16(v),
                    _ => Datum::Null,
                }
        },
        (forall|i: int| 0 <= i < cells.len() ==> #[trigger] cells[i] is I32) && (exists|i: int|
            0 <= i < cells.len() && (#[trigger] cells[i] matches ColumnData::I32(Some(_)))) ==> {
            &&& view.dtype == DType::Int32
            &&& forall|i: int|
                0 <= i < cells.len() ==> #[trigger] view.values[i] == match cells[i] {
                    ColumnData::I32(Some(v)) => Datum::Int32(v),
                    _ => Datum::Null,
                }
        },
        (forall|i: int| 0 <= i < cells.len() ==> #[trigger] cells[i] is I64) && (exists|i: int|
            0 <= i < cells.len() && (#[trigger] cells[i] matches ColumnData::I64(Some(_)))) ==> {
            &&& view.dtype == DType::Int64
            &&& forall|i: int|
                0 <= i < cells.len() ==> #[trigger] view.values[i] == match cells[i] {
                    ColumnData::I64(Some(v)) => Datum::Int64(v),
                    _ => Datum::Null,
                }
        },
        (forall|i: int| 0 <= i < cells.len() ==> #[trigger] cells[i] is F32) && (exists|i: int|
            0 <= i < cells.len() && (#[trigger] cells[i] matches ColumnData::F32(Some(_)))) ==> {
            &&& view.dtype == DType::Float32
            &&& forall|i: int|
                0 <= i < cells.len() ==> #[trigger] view.values[i] == match cells[i] {
                    ColumnData::F32(Some(b)) => Datum::Float32(b),
                    _ => Datum::Null,
                }
        },
        (forall|i: int| 0 <= i < cells.len() ==> #[trigger] cells[i] is F64) && (exists|i: int|
            0 <= i < cells.len() && (#[trigger] cells[i] matches ColumnData::F64(Some(_)))) ==> {
            &&& view.dtype == DType::Float64
            &&& forall|i: int|
                0 <= i < cells.len() ==> #[trigger] view.values[i] == match cells[i] {
                    ColumnData::F64(Some(b)) => Datum::Float64(b),
                    _ => Datum::Null,
                }
        },
        (forall|i: int| 0 <= i < cells.len() ==> #[trigger] cells[i] is Bit) && (exists|i: int|
            0 <= i < cells.len() && (#[trigger] cells[i] matches ColumnData::Bit(Some(_)))) ==> {
            &&& view.dtype == DType::Boolean
            &&& forall|i: int|
                0 <= i < cells.len() ==> #[trigger] view.values[i] == match cells[i] {
                    ColumnData::Bit(Some(b)) => Datum::Boolean(b),
                    _ => Datum::Null,
                }
        },
        (forall|i: int| 0 <= i < cells.len() ==> #[trigger] cells[i] is String) && (exists|i: int|
            0 <= i < cells.len() && (#[trigger] cells[i] matches ColumnData::String(Some(_)))) ==> {
            &&& view.dtype == DType::String
            &&& forall|i: int|
                0 <= i < cells.len() ==> #[trigger] view.values[i] == match cells[i] {
                    ColumnData::String(Some(s)) => Datum::String(s@),
                    _ => Datum::Null,
                }
        },
        (forall|i: int| 0 <= i < cells.len() ==> #[trigger] cells[i] is U8) && (exists|i: int|
            0 <= i < cells.len() && (#[trigger] cells[i] matches ColumnData::U8(Some(_)))) ==> {
            let wide = exists|i: int|
                0 <= i < cells.len() && (#[trigger] cells[i] matches ColumnData::U8(Some(v)) && v
                    > 127);
            &&& view.dtype == if wide {
                DType::Int16
            } else {
                DType::Int8
            }
            &&& forall|i: int|
                0 <= i < cells.len() ==> #[trigger] view.values[i] == match cells[i] {
                    ColumnData::U8(Some(v)) => if wide {
                        Datum::Int16(v as i16)
                    } else {
                        Datum::Int8(v as i8)
                    },
                    _ => Datum::Null,
                }
        },
        (forall|i: int|
            0 <= i < cells.len() ==> match #[trigger] cells[i] {
                ColumnData::U8(v) => v is None,
                ColumnData::I16(v) => v is None,
                ColumnData::I32(v) => v is None,
                ColumnData::I64(v) => v is None,
                ColumnData::F32(v) => v is None,
                ColumnData::F64(v) => v is None,
                ColumnData::Bit(v) => v is None,
                ColumnData::String(v) => v is None,
                _ => true,
            }) ==> {
            &&& view.dtype == match dtype {
                Some(t) => t,
                None => DType::Null,
            }
            &&& forall|i: int| 0 <= i < cells.len() ==> #[trigger] view.values[i] == Datum::Null
        },
{
    typed_dtype_is_the_widest(name, cells, dtype, view);
    if (forall|i: int| 0 <= i < cells.len() ==> #[trigger] cells[i] is I16) && (exists|i: int|
        0 <= i < cells.len() && (#[trigger] cells[i] matches ColumnData::I16(Some(_)))) {
        assert(view.dtype == DType::Int16);
        assert forall|i: int| 0 <= i < cells.len() implies #[trigger] view.values[i] == match cells[i] {
            ColumnData::I16(Some(v)) => Datum::Int16(v),
            _ => Datum::Null,
        } by {
            typed_entries_keep_their_payloads(name, cells, dtype, view, i);
        }
    }
    if (forall|i: int| 0 <= i < cells.len() ==> #[trigger] cells[i] is I32) && (exists|i: int|
        0 <= i < cells.len() && (#[trigger] cells[i] matches ColumnData::I32(Some(_)))) {
        assert(view.dtype == DType::Int32);
        assert forall|i: int| 0 <= i < cells.len() implies #[trigger] view.values[i] == match cells[i] {
            ColumnData::I32(Some(v)) => Datum::Int32(v),
            _ => Datum::Null,
        } by {
            typed_entries_keep_their_payloads(name, cells, dtype, view, i);
        }
    }
    if (forall|i: int| 0 <= i < cells.len() ==> #[trigger] cells[i] is I64) && (exists|i: int|
        0 <= i < cells.len() && (#[trigger] cells[i] matches ColumnData::I64(Some(_)))) {
        assert(view.dtype == DType::Int64);
        assert forall|i: int| 0 <= i < cells.len() implies #[trigger] view.values[i] == match cells[i] {
            ColumnData::I64(Some(v)) => Datum::Int64(v),
            _ => Datum::Null,
        } by {
            typed_entries_keep_their_payloads(name, cells, dtype, view, i);
        }
    }
    if (forall|i: int| 0 <= i < cells.len() ==> #[trigger] cells[i] is F32) && (exists|i: int|
        0 <= i < cells.len() && (#[trigger] cells[i] matches ColumnData::F32(Some(_)))) {
        assert(view.dtype == DType::Float32);
        assert forall|i: int| 0 <= i < cells.len() implies #[trigger] view.values[i] == match cells[i] {
            ColumnData::F32(Some(b)) => Datum::Float32(b),
            _ => Datum::Null,
        } by {
            typed_entries_keep_their_payloads(name, cells, dtype, view, i);
        }
    }
    if (forall|i: int| 0 <= i < cells.len() ==> #[trigger] cells[i] is F64) && (exists|i: int|
        0 <= i < cells.len() && (#[trigger] cells[i] matches ColumnData::F64(Some(_)))) {
        assert(view.dtype == DType::Float64);
        assert forall|i: int| 0 <= i < cells.len() implies #[trigger] view.values[i] == match cells[i] {
            ColumnData::F64(Some(b)) => Datum::Float64(b),
            _ => Datum::Null,
        } by {
            typed_entries_keep_their_payloads(name, cells, dtype, view, i);
        }
    }
    if (forall|i: int| 0 <= i < cells.len() ==> #[trigger] cells[i] is Bit) && (exists|i: int|
        0 <= i < cells.len() && (#[trigger] cells[i] matches ColumnData::Bit(Some(_)))) {
        assert(view.dtype == DType::Boolean);
        assert forall|i: int| 0 <= i < cells.len() implies #[trigger] view.values[i] == match cells[i] {
            ColumnData::Bit(Some(b)) => Datum::Boolean(b),
            _ => Datum::Null,
        } by {
            typed_entries_keep_their_payloads(name, cells, dtype, view, i);
        }
    }
    if (forall|i: int| 0 <= i < cells.len() ==> #[trigger] cells[i] is String) && (exists|i: int|
        0 <= i < cells.len() && (#[trigger] cells[i] matches ColumnData::String(Some(_)))) {
        assert(view.dtype == DType::String);
        assert forall|i: int| 0 <= i < cells.len() implies #[trigger] view.values[i] == match cells[i] {
            ColumnData::String(Some(s)) => Datum::String(s@),
            _ => Datum::Null,
        } by {
            typed_entries_keep_their_payloads(name, cells, dtype, view, i);
        }
    }
    assert forall|i: int| 0 <= i < cells.len() implies match #[trigger] cells[i] {
        ColumnData::U8(Some(v)) => match view.dtype {
            DType::Int8 => v <= 127 && view.values[i] == Datum::Int8(v as i8),
            DType::Int16 => view.values[i] == Datum::Int16(v as i16),
            _ => true,
        },
        ColumnData::U8(None) => view.values[i] == Datum::Null,
        _ => true,
    } by {
        typed_entries_keep_their_payloads(name, cells, dtype, view, i);
    }
    if forall|i: int|
        0 <= i < cells.len() ==> match #[trigger] cells[i] {
            ColumnData::U8(v) => v is None,
            ColumnData::I16(v) => v is None,
            ColumnData::I32(v) => v is None,
            ColumnData::I64(v) => v is None,
            ColumnData::F32(v) => v is None,
            ColumnData::F64(v) => v is None,
            ColumnData::Bit(v) => v is None,
            ColumnData::String(v) => v is None,
            _ => true,
        } {
        assert forall|i: int| 0 <= i < cells.len() implies #[trigger] view.values[i]
            == Datum::Null by {
            typed_entries_keep_their_payloads(name, cells, dtype, view, i);
        }
    }
}

/// The first cell of a column declares its data type, `NULL` or not: each cell of the
/// same kind becomes its payload, and every other cell null. Without cells the column is
/// one of texts, and where the first is of another kind there is no column.
pub proof fn declared_columns_follow_their_first_cell(name: Seq<char>, cells: Seq<ColumnData<'_>>)
    ensures
        cells.len() == 0 ==> (declared_view(name, cells) matches Some(view) && view.name == name
            && view.dtype == DType::String && view.values.len() == 0),
        cells.len() > 0 && cells[0] is I32 ==> (declared_view(name, cells) matches Some(view)
            && view.name == name && view.dtype == DType::Int32 && view.values.len() == cells.len()
            && forall|i: int|
            0 <= i < cells.len() ==> #[trigger] view.values[i] == match cells[i] {
                ColumnData::I32(Some(v)) => Datum::Int32(v),
                _ => Datum::Null,
            }),
        cells.len() > 0 && cells[0] is I64 ==> (declared_view(name, cells) matches Some(view)
            && view.name == name && view.dtype == DType::Int64 && view.values.len() == cells.len()
            && forall|i: int|
            0 <= i < cells.len() ==> #[trigger] view.values[i] == match cells[i] {
                ColumnData::I64(Some(v)) => Datum::Int64(v),
                _ => Datum::Null,
            }),
        cells.len() > 0 && cells[0] is F32 ==> (declared_view(name, cells) matches Some(view)
            && view.name == name && view.dtype == DType::Float32 && view.values.len() == cells.len()
            && forall|i: int|
            0 <= i < cells.len() ==> #[trigger] view.values[i] == match cells[i] {
                ColumnData::F32(Some(b)) => Datum::Float32(b),
                _ => Datum::Null,
            }),
        cells.len() > 0 && cells[0] is F64 ==> (declared_view(name, cells) matches Some(view)
            && view.name == name && view.dtype == DType::Float64 && view.values.len() == cells.len()
            && forall|i: int|
            0 <= i < cells.len() ==> #[trigger] view.values[i] == match cells[i] {
                ColumnData::F64(Some(b)) => Datum::Float64(b),
                _ => Datum::Null,
            }),
        cells.len() > 0 && cells[0] is Bit ==> (declared_view(name, cells) matches Some(view)
            && view.name == name && view.dtype == DType::Boolean && view.values.len() == cells.len()
            && forall|i: int|
            0 <= i < cells.len() ==> #[trigger] view.values[i] == match cells[i] {
                ColumnData::Bit(Some(b)) => Datum::Boolean(b),
                _ => Datum::Null,
            }),
        cells.len() > 0 && cells[0] is String ==> (declared_view(name, cells) matches Some(view)
            && view.name == name && view.dtype == DType::String && view.values.len() == cells.len()
            && forall|i: int|
            0 <= i < cells.len() ==> #[trigger] view.values[i] == match cells[i] {
                ColumnData::String(Some(s)) => Datum::String(s@),
                _ => Datum::Null,
            }),
        cells.len() > 0 ==> (declared_view(name, cells) is None <==> !(cells[0] is I32 || cells[0] is I64
            || cells[0] is F32 || cells[0] is F64 || cells[0] is Bit || cells[0] is String)),
{
}

/// The kinds of cells that have a counterpart, and the data types of the kinds that can
/// declare one.
pub proof fn kinds_with_a_counterpart(data: ColumnData<'_>)
    ensures
        covered(data) <==> (data is U8 || data is I16 || data is I32 || data is I64 || data is F32
            || data is F64 || data is Bit || data is String),
        cell_dtype(data) == match data {
            ColumnData::I32(_) => Some(DType::Int32),
            ColumnData::I64(_) => Some(DType::Int64),
            ColumnData::F32(_) => Some(DType::Float32),
            ColumnData::F64(_) => Some(DType::Float64),
            ColumnData::Bit(_) => Some(DType::Boolean),
            ColumnData::String(_) => Some(DType::String),
            _ => None,
        },
{
}

/// The entry that a cell becomes is its payload: alone in a column, and where types are
/// kept. What has no counterpart becomes null.
pub proof fn cells_become_their_payloads(data: ColumnData<'_>)
    ensures
        match data {
            ColumnData::I32(Some(v)) => datum(data) == Datum::Int32(v) && native(data)
                == Datum::Int32(v),
            ColumnData::I64(Some(v)) => datum(data) == Datum::Int64(v) && native(data)
                == Datum::Int64(v),
            ColumnData::F32(Some(b)) => datum(data) == Datum::Float32(b) && native(data)
                == Datum::Float32(b),
            ColumnData::F64(Some(b)) => datum(data) == Datum::Float64(b) && native(data)
                == Datum::Float64(b),
            ColumnData::Bit(Some(b)) => datum(data) == Datum::Boolean(b) && native(data)
                == Datum::Boolean(b),
            ColumnData::String(Some(s)) => datum(data) == Datum::String(s@) && native(data)
                == Datum::String(s@),
            ColumnData::I16(Some(v)) => datum(data) == Datum::Null && native(data) == Datum::Int16(v),
            ColumnData::U8(Some(v)) => datum(data) == Datum::Null && if v < 128 {
                native(data) == Datum::Int8(v as i8)
            } else {
                native(data) == Datum::Int16(v as i16)
            },
            _ => datum(data) == Datum::Null && native(data) == Datum::Null,
        },
{
}

/// The metadata of a column names the data type of texts where every value becomes one.
/// Else it names the integer type of the same width for integers, and likewise for
/// floating-point numbers, truth values, texts and GUIDs, dates and points in time; for
/// the other types it names none.
pub proof fn metadata_names_the_matching_dtype(map2string: bool, column_type: ColumnType)
    ensures
        map2string ==> metadata_dtype(map2string, column_type) == Some(DType::String),
        !map2string ==> metadata_dtype(map2string, column_type) == match column_type {
            ColumnType::Int1 => Some(DType::Int8),
            ColumnType::Int2 => Some(DType::Int16),
            ColumnType::Int4 => Some(DType::Int32),
            ColumnType::Int8 => Some(DType::Int64),
            ColumnType::Float4 => Some(DType::Float32),
            ColumnType::Float8 => Some(DType::Float64),
            ColumnType::Bit => Some(DType::Boolean),
            ColumnType::Guid | ColumnType::BigVarChar | ColumnType::NChar | ColumnType::NVarchar => Some(
                DType::String,
            ),
            ColumnType::Daten => Some(DType::Date),
            ColumnType::Datetime | ColumnType::Datetime2 => Some(DType::Datetime),
            _ => None,
        },
{
}

} // verus!
