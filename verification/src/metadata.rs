//! Column metadata, and the data types that it names.

use crate::column::ColumnData;
use crate::series::{
    any_value_coercion, coerces, has_dtype, native, native_data, null_supertype, supertype, typed,
    unified, ColumnView, DType, Datum,
};
use vstd::prelude::*;

verus! {

/// The type of a column on the wire.
#[derive(Clone, Copy, PartialEq, Eq, Structural)]
pub enum ColumnType {
    Null,
    Bit,
    Int1,
    Int2,
    Int4,
    Int8,
    Datetime4,
    Float4,
    Float8,
    Money,
    Datetime,
    Money4,
    Guid,
    Intn,
    Bitn,
    Decimaln,
    Numericn,
    Floatn,
    Datetimen,
    Daten,
    Timen,
    Datetime2,
    DatetimeOffsetn,
    BigVarBin,
    BigVarChar,
    BigBinary,
    BigChar,
    NVarchar,
    NChar,
    Xml,
    Udt,
    Text,
    Image,
    NText,
    SSVariant,
}

/// What the metadata of a query result says of a column.
pub struct ColumnInfo {
    pub name: String,
    pub column_type: ColumnType,
}

/// The data type that a column's metadata names, if any. Where every value becomes a
/// text, it is that of texts.
pub open spec fn metadata_dtype(map2string: bool, column_type: ColumnType) -> Option<DType> {
    if map2string {
        Some(DType::String)
    } else {
        match column_type {
            ColumnType::Int1 => Some(DType::Int8),
            ColumnType::Int2 => Some(DType::Int16),
            ColumnType::Int4 => Some(DType::Int32),
            ColumnType::Int8 => Some(DType::Int64),
            ColumnType::Float4 => Some(DType::Float32),
            ColumnType::Float8 => Some(DType::Float64),
            ColumnType::Bit => Some(DType::Boolean),
            ColumnType::Guid => Some(DType::String),
            ColumnType::BigVarChar => Some(DType::String),
            ColumnType::NChar => Some(DType::String),
            ColumnType::NVarchar => Some(DType::String),
            ColumnType::Daten => Some(DType::Date),
            ColumnType::Datetime => Some(DType::Datetime),
            ColumnType::Datetime2 => Some(DType::Datetime),
            _ => None,
        }
    }
}

/// The data type that a column's metadata names, if any.
pub fn column_dtype(map2string: bool, column_type: ColumnType) -> (dtype: Option<DType>)
    ensures
        dtype == metadata_dtype(map2string, column_type),
{
    if map2string {
        return Some(DType::String);
    }
    match column_type {
        ColumnType::Int1 => Some(DType::Int8),
        ColumnType::Int2 => Some(DType::Int16),
        ColumnType::Int4 => Some(DType::Int32),
        ColumnType::Int8 => Some(DType::Int64),
        ColumnType::Float4 => Some(DType::Float32),
        ColumnType::Float8 => Some(DType::Float64),
        ColumnType::Bit => Some(DType::Boolean),
        ColumnType::Guid => Some(DType::String),
        ColumnType::BigVarChar => Some(DType::String),
        ColumnType::NChar => Some(DType::String),
        ColumnType::NVarchar => Some(DType::String),
        ColumnType::Daten => Some(DType::Date),
        ColumnType::Datetime => Some(DType::Datetime),
        ColumnType::Datetime2 => Some(DType::Datetime),
        _ => None,
    }
}

/// Whether a cell is of the kind in which the wire protocol delivers the values of a
/// column type, for the column types that name a data type.
pub open spec fn delivered_as(column_type: ColumnType, cell: ColumnData<'_>) -> bool {
    match column_type {
        ColumnType::Int1 => cell is U8,
        ColumnType::Int2 => cell is I16,
        ColumnType::Int4 => cell is I32,
        ColumnType::Int8 => cell is I64,
        ColumnType::Float4 => cell is F32,
        ColumnType::Float8 => cell is F64,
        ColumnType::Bit => cell is Bit,
        ColumnType::Guid => cell is Guid,
        ColumnType::BigVarChar => cell is String,
        ColumnType::NChar => cell is String,
        ColumnType::NVarchar => cell is String,
        ColumnType::Daten => cell is Date,
        ColumnType::Datetime => cell is DateTime,
        ColumnType::Datetime2 => cell is DateTime2,
        _ => true,
    }
}

/// Whether some cell is a tiny integer that 8 bits with a sign are too narrow for.
pub open spec fn has_wide_tiny(cells: Seq<ColumnData<'_>>) -> bool {
    exists|i: int|
        0 <= i < cells.len() && (#[trigger] cells[i] matches ColumnData::U8(Some(v)) && v > 127)
}

/// The data type of a column whose metadata names one: that type, but for tiny
/// integers of which one is too large for it.
pub open spec fn settled_dtype(dtype: DType, cells: Seq<ColumnData<'_>>) -> DType {
    if dtype == DType::Int8 && has_wide_tiny(cells) {
        DType::Int16
    } else {
        dtype
    }
}

/// The entry that a cell becomes in a column of a settled data type.
pub open spec fn settled_entry(cell: ColumnData<'_>, dtype: DType) -> Datum {
    match cell {
        ColumnData::U8(Some(v)) if dtype == DType::Int16 => Datum::Int16(v as i16),
        _ => native(cell),
    }
}

/// A column whose metadata names a data type has that data type, whatever its cells
/// hold and however many there are, and holds exactly the entries that its cells
/// become. The one exception are tiny integers of which one is too large for the type
/// that the metadata names: they are all integers of 16 bits.
pub proof fn metadata_decides_the_dtype(
    name: Seq<char>,
    column_type: ColumnType,
    cells: Seq<ColumnData<'_>>,
    dtype: DType,
    view: ColumnView,
)
    requires
        metadata_dtype(false, column_type) == Some(dtype),
        forall|i: int| 0 <= i < cells.len() ==> delivered_as(column_type, #[trigger] cells[i]),
    ensures
        typed(name, cells, Some(dtype), view) <==> view == (ColumnView {
            name,
            dtype: settled_dtype(dtype, cells),
            values: cells.map_values(
                |c: ColumnData<'_>| settled_entry(c, settled_dtype(dtype, cells)),
            ),
        }),
{
    let values = native_data(cells);
    let settled = settled_dtype(dtype, cells);
    let entries = cells.map_values(|c: ColumnData<'_>| settled_entry(c, settled));
    null_supertype(values);
    assert forall|i: int| 0 <= i < values.len() implies {
        ||| #[trigger] values[i] == Datum::Null
        ||| values[i].dtype() == settled
        ||| values[i].dtype() == DType::Int8 && settled == DType::Int16
    } by {
        assert(delivered_as(column_type, cells[i]));
        assert(values[i] == native(cells[i]));
    }
    if supertype(values) == DType::Null {
        assert forall|i: int| 0 <= i < cells.len() implies native(#[trigger] cells[i])
            == Datum::Null by {
            assert(values[i] == Datum::Null);
        }
        assert(!has_wide_tiny(cells));
        assert(entries =~= values);
    } else {
        let w = choose|i: int| 0 <= i < values.len() && #[trigger] values[i] != Datum::Null;
        if settled != dtype {
            let k = choose|i: int|
                0 <= i < cells.len() && (#[trigger] cells[i] matches ColumnData::U8(Some(v)) && v
                    > 127);
            assert(values[k].dtype() == settled);
            assert(has_dtype(values, settled));
        } else {
            assert(delivered_as(column_type, cells[w]));
            assert(values[w] == native(cells[w]));
            assert(values[w].dtype() == settled);
            assert(has_dtype(values, settled));
        }
        assert(supertype(values) == settled);
        if unified(name, values, view) {
            assert forall|i: int| 0 <= i < entries.len() implies view.values[i]
                == #[trigger] entries[i] by {
                assert(values[i] == native(cells[i]));
                assert(entries[i] == settled_entry(cells[i], settled));
            }
            assert(view.values =~= entries);
        }
        if view == (ColumnView { name, dtype: settled, values: entries }) {
            assert forall|i: int| 0 <= i < values.len() implies coerces(
                values[i],
                settled,
                #[trigger] view.values[i],
                any_value_coercion(values[i], settled),
            ) by {
                assert(values[i] == native(cells[i]));
                assert(entries[i] == settled_entry(cells[i], settled));
            }
        }
    }
}

} // verus!
