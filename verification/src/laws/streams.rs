//! What holds of query streams, row by row and as a whole.

use super::cells::dates_of_four_digit_years_have_a_text;
use super::columns::{columns_that_polars_can_hold, typed_columns_of_one_kind};
use super::{
    column_at, distinct_names, row_at, run, text_download_holds_texts, whole_result,
    whole_result_is_kept, whole_result_makes_a_frame,
};
use crate::calendar::CivilDate;
use crate::column::{cell_text, renderable, ColumnData};
use crate::download::{
    columns_match, finished_columns_match, row_text, DownloadView, Refusal, StreamItem, TableView,
};
use crate::metadata::{metadata_dtype, ColumnInfo};
use crate::series::{column_fits, texts_fit, typed, ColumnView, DType, Datum};
use vstd::arithmetic::power::pow;
use vstd::prelude::*;
use vstd::utf8::encode_utf8;

verus! {

/// A download begins with the metadata of the first result: it has the columns of the
/// result and no entries. A row or the metadata of another result are refused, and a
/// stream without items has no columns.
pub proof fn downloads_begin_with_the_metadata(map2string: bool, first: Option<StreamItem<'_>>)
    ensures
        ({
            let begun = DownloadView::begun(map2string, first);
            match first {
                None => begun matches Ok(view) && view.columns.len() == 0,
                Some(StreamItem::Row(_)) => begun == Err::<DownloadView<'_>, Refusal>(
                    Refusal::RowBeforeMetadata,
                ),
                Some(StreamItem::Metadata { result_index, columns }) => if result_index == 0 {
                    begun matches Ok(view) && view.columns == columns@
                } else {
                    begun == Err::<DownloadView<'_>, Refusal>(Refusal::LaterResultFirst)
                },
            }
        }),
        DownloadView::begun(map2string, first) matches Ok(view) ==> match view.table {
            TableView::Text(table) => map2string && table.len() == view.columns.len() && forall|
                j: int,
            |
                0 <= j < table.len() ==> (#[trigger] table[j]).len() == 0,
            TableView::Typed(table) => !map2string && table.len() == view.columns.len() && forall|
                j: int,
            |
                0 <= j < table.len() ==> (#[trigger] table[j]).len() == 0,
        },
{
}

/// A download is in order where it has a column of entries for each column of the
/// result.
pub proof fn downloads_have_a_column_for_each(view: DownloadView<'_>)
    ensures
        view.wf() <==> match view.table {
            TableView::Text(table) => table.len() == view.columns.len(),
            TableView::Typed(table) => table.len() == view.columns.len(),
        },
        forall|j: int|
            #[trigger] view.column_len(j) == match view.table {
                TableView::Text(table) => table[j].len(),
                TableView::Typed(table) => table[j].len(),
            },
{
}

/// Where values keep their types, every row that is not wider than the result is taken:
/// each of its cells is the new last entry of its column, and everything else stays. A
/// wider row is refused.
pub proof fn typed_rows_are_added(view: DownloadView<'_>, item: StreamItem<'_>)
    requires
        view.table is Typed,
        view.table->Typed_0.len() == view.columns.len(),
        item is Row,
    ensures
        item->Row_0@.len() > view.columns.len() ==> view.accepted(item) == Err::<
            DownloadView<'_>,
            Refusal,
        >(Refusal::RowTooWide),
        item->Row_0@.len() <= view.columns.len() ==> (view.accepted(item) matches Ok(after)
            && after.columns == view.columns && after.table is Typed && after.table->Typed_0.len()
            == view.columns.len() && forall|j: int|
            0 <= j < view.columns.len() ==> #[trigger] after.table->Typed_0[j] == if j
                < item->Row_0@.len() {
                view.table->Typed_0[j].push(item->Row_0@[j])
            } else {
                view.table->Typed_0[j]
            }),
{
}

/// Where every value becomes a text, every row that is not wider than the result and of
/// which every cell has a text is taken: the text of each cell is the new last entry of
/// its column, and everything else stays. Else the row is refused, for the first cell
/// that has no text or no column.
pub proof fn text_rows_are_added(view: DownloadView<'_>, item: StreamItem<'_>)
    requires
        view.table is Text,
        view.table->Text_0.len() == view.columns.len(),
        item is Row,
    ensures
        (exists|i: int|
            0 <= i < item->Row_0@.len() && i <= view.columns.len() && !renderable(
                #[trigger] item->Row_0@[i],
            )) ==> view.accepted(item) == Err::<DownloadView<'_>, Refusal>(Refusal::DateOutOfRange),
        (forall|i: int|
            0 <= i < item->Row_0@.len() && i <= view.columns.len() ==> renderable(
                #[trigger] item->Row_0@[i],
            )) && item->Row_0@.len() > view.columns.len() ==> view.accepted(item) == Err::<
            DownloadView<'_>,
            Refusal,
        >(Refusal::RowTooWide),
        (forall|i: int| 0 <= i < item->Row_0@.len() ==> renderable(#[trigger] item->Row_0@[i]))
            && item->Row_0@.len() <= view.columns.len() ==> (view.accepted(item) matches Ok(after)
            && after.columns == view.columns && after.table is Text && after.table->Text_0.len()
            == view.columns.len() && forall|j: int|
            0 <= j < view.columns.len() ==> #[trigger] after.table->Text_0[j] == if j
                < item->Row_0@.len() {
                view.table->Text_0[j].push(cell_text(item->Row_0@[j]))
            } else {
                view.table->Text_0[j]
            }),
{
    if (forall|i: int| 0 <= i < item->Row_0@.len() ==> renderable(#[trigger] item->Row_0@[i]))
        && item->Row_0@.len() <= view.columns.len() {
        let after = view.accepted(item)->Ok_0;
        assert forall|j: int| 0 <= j < view.columns.len() implies #[trigger] after.table->Text_0[j]
            == if j < item->Row_0@.len() {
            view.table->Text_0[j].push(cell_text(item->Row_0@[j]))
        } else {
            view.table->Text_0[j]
        } by {
            assert(row_text(item->Row_0@).len() == item->Row_0@.len());
        }
    }
}

/// A row of ordinary cells is taken as texts wherever it is not wider than the result:
/// its dates and points in time are of the years 1 to 9999 and times of a day, in scales
/// up to seven, and its other cells are whatever they are.
pub proof fn ordinary_rows_are_taken_as_texts(view: DownloadView<'_>, item: StreamItem<'_>)
    requires
        view.table is Text,
        view.table->Text_0.len() == view.columns.len(),
        item is Row,
        item->Row_0@.len() <= view.columns.len(),
        forall|i: int|
            0 <= i < item->Row_0@.len() ==> match #[trigger] item->Row_0@[i] {
                ColumnData::Date(Some(days)) => exists|c: CivilDate|
                    #[trigger] c.valid() && 1 <= c.year <= 9999 && c.day_number() == 1 + days,
                ColumnData::DateTime(Some(d)) => exists|c: CivilDate|
                    #[trigger] c.valid() && 1 <= c.year <= 9999 && c.day_number() == 693_596
                        + d.days,
                ColumnData::DateTime2(Some(d)) => d.scale <= 7 && d.increments < 86_400 * pow(
                    10,
                    d.scale as nat,
                ) && exists|c: CivilDate|
                    #[trigger] c.valid() && 1 <= c.year <= 9999 && c.day_number() == 1 + d.days,
                _ => true,
            },
    ensures
        view.accepted(item) matches Ok(after) && forall|j: int|
            0 <= j < item->Row_0@.len() ==> #[trigger] after.table->Text_0[j]
                == view.table->Text_0[j].push(cell_text(item->Row_0@[j])),
{
    let row = item->Row_0@;
    assert forall|i: int| 0 <= i < row.len() implies renderable(#[trigger] row[i]) by {
        let cell = row[i];
        let c = match cell {
            ColumnData::Date(Some(days)) => choose|c: CivilDate|
                #[trigger] c.valid() && 1 <= c.year <= 9999 && c.day_number() == 1 + days,
            ColumnData::DateTime(Some(d)) => choose|c: CivilDate|
                #[trigger] c.valid() && 1 <= c.year <= 9999 && c.day_number() == 693_596 + d.days,
            ColumnData::DateTime2(Some(d)) => choose|c: CivilDate|
                #[trigger] c.valid() && 1 <= c.year <= 9999 && c.day_number() == 1 + d.days,
            _ => CivilDate { year: 1, month: 1, day: 1 },
        };
        dates_of_four_digit_years_have_a_text(c, cell);
    }
    text_rows_are_added(view, item);
}

/// Metadata that comes later changes nothing.
pub proof fn later_metadata_changes_nothing(view: DownloadView<'_>, item: StreamItem<'_>)
    requires
        item is Metadata,
    ensures
        view.accepted(item) == Ok::<DownloadView<'_>, Refusal>(view),
{
}

/// A stream is taken item by item, each by the download that the ones before it left; the
/// first refusal is the last word.
pub proof fn streams_are_taken_item_by_item<'a>(
    map2string: bool,
    items: Seq<StreamItem<'a>>,
    item: StreamItem<'a>,
)
    ensures
        run(map2string, Seq::<StreamItem<'a>>::empty()) == DownloadView::begun(
            map2string,
            None::<StreamItem<'a>>,
        ),
        run(map2string, seq![item]) == DownloadView::begun(map2string, Some(item)),
        items.len() > 0 ==> run(map2string, items.push(item)) == match run(map2string, items) {
            Ok(view) => view.accepted(item),
            Err(refusal) => Err(refusal),
        },
{
    assert(items.push(item).drop_last() =~= items);
}

/// A download can be finished in size where each column has fewer than 4294967295
/// entries and each text takes at most 4294967295 bytes in UTF-8; and it makes a data
/// frame where no two columns have the same name and all are equally long. Nothing else
/// keeps it from being finished.
pub proof fn downloads_that_can_be_finished(view: DownloadView<'_>)
    requires
        view.wf(),
    ensures
        view.fits() <==> match view.table {
            TableView::Text(table) => forall|j: int|
                0 <= j < table.len() ==> (#[trigger] table[j]).len() < 4_294_967_295 && forall|
                    r: int,
                |
                    0 <= r < table[j].len() ==> encode_utf8(#[trigger] table[j][r]).len()
                        <= 4_294_967_295,
            TableView::Typed(table) => forall|j: int|
                0 <= j < table.len() ==> (#[trigger] table[j]).len() < 4_294_967_295 && forall|
                    r: int,
                |
                    0 <= r < table[j].len() ==> (#[trigger] table[j][r] matches ColumnData::String(
                        Some(s),
                    ) ==> encode_utf8(s@).len() <= 4_294_967_295),
        },
        view.makes_frame() <==> {
            &&& forall|i: int, j: int|
                0 <= i < j < view.columns.len() ==> (#[trigger] view.columns[i]).name@ != (
                #[trigger] view.columns[j]).name@
            &&& forall|j: int|
                0 <= j < view.columns.len() ==> #[trigger] view.column_len(j) == view.column_len(0)
        },
{
    match view.table {
        TableView::Text(table) => {
            assert forall|j: int| 0 <= j < table.len() implies (texts_fit(#[trigger] table[j])
                <==> table[j].len() < 4_294_967_295 && forall|r: int|
                0 <= r < table[j].len() ==> encode_utf8(#[trigger] table[j][r]).len()
                    <= 4_294_967_295) by {
                columns_that_polars_can_hold(Seq::empty(), Seq::empty(), table[j]);
            }
        },
        TableView::Typed(table) => {
            assert forall|j: int| 0 <= j < table.len() implies (column_fits(#[trigger] table[j])
                <==> table[j].len() < 4_294_967_295 && forall|r: int|
                0 <= r < table[j].len() ==> (#[trigger] table[j][r] matches ColumnData::String(
                    Some(s),
                ) ==> encode_utf8(s@).len() <= 4_294_967_295)) by {
                columns_that_polars_can_hold(Seq::empty(), table[j], Seq::empty());
            }
        },
    }
}

/// Columns stand together in a data frame where no two have the same name and all are
/// as long as the first.
pub proof fn columns_that_stand_together(columns: Seq<ColumnView>)
    ensures
        columns_match(columns) <==> {
            &&& forall|i: int, j: int|
                0 <= i < columns.len() && 0 <= j < columns.len() && i != j ==> (
                #[trigger] columns[i]).name != (#[trigger] columns[j]).name
            &&& forall|i: int, j: int|
                0 <= i < columns.len() && 0 <= j < columns.len() ==> (
                #[trigger] columns[i]).values.len() == (#[trigger] columns[j]).values.len()
        },
{
    if columns_match(columns) {
        assert forall|i: int, j: int|
            0 <= i < columns.len() && 0 <= j < columns.len() && i != j implies (
        #[trigger] columns[i]).name != (#[trigger] columns[j]).name by {
            if i < j {
                assert(columns[i].name != columns[j].name);
            } else {
                assert(columns[j].name != columns[i].name);
            }
        }
    }
}

/// A finished table has a column for each column of the result, under its name. Texts
/// are the entries of columns of texts; cells make the column that keeps their types,
/// with the data type that the metadata names where they do not tell.
pub proof fn finished_tables_hold_what_was_collected(
    view: DownloadView<'_>,
    columns: Seq<ColumnView>,
    j: int,
)
    requires
        view.wf(),
        view.finished(columns),
        0 <= j < view.columns.len(),
    ensures
        columns.len() == view.columns.len(),
        columns[j].name == view.columns[j].name@,
        match view.table {
            TableView::Text(table) => {
                &&& columns[j].dtype == DType::String
                &&& columns[j].values.len() == table[j].len()
                &&& forall|r: int|
                    0 <= r < table[j].len() ==> #[trigger] columns[j].values[r] == Datum::String(
                        table[j][r],
                    )
            },
            TableView::Typed(table) => typed(
                view.columns[j].name@,
                table[j],
                metadata_dtype(false, view.columns[j].column_type),
                columns[j],
            ),
        },
{
    assert(view.column_finished(j, columns[j]));
    finished_columns_match(view, columns);
}

/// A stream is that of one whole result where the metadata of the first result comes
/// first and then nothing but rows of one cell for each column, which have a text where
/// they are to become one. Names are distinct where no two columns share one, and the
/// cells of a column are those at its place in the rows.
pub proof fn whole_results_are_metadata_and_rows(
    map2string: bool,
    columns: Seq<ColumnInfo>,
    items: Seq<StreamItem<'_>>,
)
    ensures
        whole_result(map2string, columns, items) <==> {
            &&& items.len() > 0
            &&& items[0] matches StreamItem::Metadata { result_index, columns: c } && result_index
                == 0 && c@ == columns
            &&& forall|i: int|
                1 <= i < items.len() ==> #[trigger] items[i] is Row && items[i]->Row_0@.len()
                    == columns.len()
            &&& map2string ==> forall|i: int, j: int|
                1 <= i < items.len() && 0 <= j < columns.len() ==> renderable(
                    #[trigger] row_at(items, i)[j],
                )
        },
        forall|i: int| #[trigger] row_at(items, i) == items[i]->Row_0@,
        distinct_names(columns) <==> forall|i: int, j: int|
            0 <= i < j < columns.len() ==> (#[trigger] columns[i]).name@ != (
            #[trigger] columns[j]).name@,
        items.len() > 0 ==> forall|j: int|
            (#[trigger] column_at(items, j)).len() == items.len() - 1 && forall|r: int|
                0 <= r < items.len() - 1 ==> #[trigger] column_at(items, j)[r]
                    == items[r + 1]->Row_0@[j],
{
}

/// A whole result of columns with different names, of fewer than 4294967295 rows and of
/// texts of at most 4294967295 bytes each, can always be finished, and then has a row
/// for each row of the stream.
pub proof fn whole_results_can_be_finished(
    map2string: bool,
    columns: Seq<ColumnInfo>,
    items: Seq<StreamItem<'_>>,
)
    requires
        items.len() > 0,
        items[0] matches StreamItem::Metadata { result_index, columns: c } && result_index == 0
            && c@ == columns,
        forall|i: int|
            1 <= i < items.len() ==> #[trigger] items[i] is Row && items[i]->Row_0@.len()
                == columns.len(),
        forall|i: int, j: int|
            0 <= i < j < columns.len() ==> (#[trigger] columns[i]).name@ != (
            #[trigger] columns[j]).name@,
        items.len() - 1 < 4_294_967_295,
        map2string ==> forall|i: int, j: int|
            1 <= i < items.len() && 0 <= j < columns.len() ==> renderable(
                #[trigger] row_at(items, i)[j],
            ) && encode_utf8(cell_text(row_at(items, i)[j])).len() <= 4_294_967_295,
        !map2string ==> forall|i: int, j: int|
            1 <= i < items.len() && 0 <= j < columns.len() ==> (#[trigger] row_at(
                items,
                i,
            )[j] matches ColumnData::String(Some(s)) ==> encode_utf8(s@).len() <= 4_294_967_295),
    ensures
        run(map2string, items) matches Ok(view) && view.wf() && view.fits() && view.makes_frame()
            && view.columns == columns && forall|j: int|
            0 <= j < columns.len() ==> #[trigger] view.column_len(j) == items.len() - 1,
{
    assert(whole_result(map2string, columns, items));
    whole_result_is_kept(map2string, columns, items);
    whole_result_makes_a_frame(map2string, columns, items, Seq::empty());
    let view = run(map2string, items)->Ok_0;
    assert(view.columns == columns);
    match view.table {
        TableView::Text(table) => {
            assert forall|j: int| 0 <= j < table.len() implies (#[trigger] table[j]).len()
                < 4_294_967_295 && forall|r: int|
                0 <= r < table[j].len() ==> encode_utf8(#[trigger] table[j][r]).len()
                    <= 4_294_967_295 by {
                assert(view.column_len(j) == items.len() - 1);
                assert forall|r: int| 0 <= r < table[j].len() implies encode_utf8(
                    #[trigger] table[j][r],
                ).len() <= 4_294_967_295 by {
                    assert(view.table->Text_0[j][r] == cell_text(row_at(items, r + 1)[j]));
                }
            }
        },
        TableView::Typed(table) => {
            assert forall|j: int| 0 <= j < table.len() implies (#[trigger] table[j]).len()
                < 4_294_967_295 && forall|r: int|
                0 <= r < table[j].len() ==> (#[trigger] table[j][r] matches ColumnData::String(
                    Some(s),
                ) ==> encode_utf8(s@).len() <= 4_294_967_295) by {
                assert(view.column_len(j) == items.len() - 1);
                assert forall|r: int| 0 <= r < table[j].len() implies (
                #[trigger] table[j][r] matches ColumnData::String(Some(s)) ==> encode_utf8(
                    s@,
                ).len() <= 4_294_967_295) by {
                    assert(view.table->Typed_0[j][r] == row_at(items, r + 1)[j]);
                }
            }
        },
    }
    downloads_that_can_be_finished(view);
}

/// Where every value of a whole result becomes a text, the column at each place has its
/// name, the data type of texts, and for each row the text of the cell at that place.
pub proof fn text_downloads_hold_the_text_of_every_cell(
    columns: Seq<ColumnInfo>,
    items: Seq<StreamItem<'_>>,
    table: Seq<ColumnView>,
    j: int,
)
    requires
        whole_result(true, columns, items),
        run(true, items)->Ok_0.finished(table),
        0 <= j < columns.len(),
    ensures
        table.len() == columns.len(),
        table[j].name == columns[j].name@,
        table[j].dtype == DType::String,
        table[j].values.len() == items.len() - 1,
        forall|r: int|
            0 <= r < items.len() - 1 ==> #[trigger] table[j].values[r] == Datum::String(
                cell_text(items[r + 1]->Row_0@[j]),
            ),
{
    whole_result_is_kept(true, columns, items);
    let view = run(true, items)->Ok_0;
    assert(view.column_len(j) == items.len() - 1);
    finished_columns_match(view, table);
    assert(view.column_finished(j, table[j]));
    assert forall|r: int| 0 <= r < items.len() - 1 implies #[trigger] table[j].values[r]
        == Datum::String(cell_text(items[r + 1]->Row_0@[j])) by {
        text_download_holds_texts(columns, items, table, j, r);
    }
}

/// Where the values of a whole result keep their types, a column of cells of one kind, of
/// which one is not `NULL`, has the data type of that kind and for each row exactly the
/// payload of its cell, whatever type the metadata gives the column and whether or not
/// it names a data type. Tiny integers have 8 bits, or 16 where one is above 127.
pub proof fn typed_downloads_keep_columns_of_one_kind(
    columns: Seq<ColumnInfo>,
    items: Seq<StreamItem<'_>>,
    table: Seq<ColumnView>,
    j: int,
)
    requires
        whole_result(false, columns, items),
        run(false, items)->Ok_0.finished(table),
        0 <= j < columns.len(),
    ensures
        table.len() == columns.len(),
        table[j].name == columns[j].name@,
        table[j].values.len() == items.len() - 1,
        ({
            let cells = Seq::new((items.len() - 1) as nat, |r: int| items[r + 1]->Row_0@[j]);
            &&& (forall|r: int| 0 <= r < cells.len() ==> #[trigger] cells[r] is I16) && (exists|r: int|
                0 <= r < cells.len() && (#[trigger] cells[r] matches ColumnData::I16(Some(_)))) ==> {
                &&& table[j].dtype == DType::Int16
                &&& forall|r: int|
                    0 <= r < cells.len() ==> #[trigger] table[j].values[r] == match cells[r] {
                        ColumnData::I16(Some(v)) => Datum::Int16(v),
                        _ => Datum::Null,
                    }
            }
            &&& (forall|r: int| 0 <= r < cells.len() ==> #[trigger] cells[r] is I32) && (exists|r: int|
                0 <= r < cells.len() && (#[trigger] cells[r] matches ColumnData::I32(Some(_)))) ==> {
                &&& table[j].dtype == DType::Int32
                &&& forall|r: int|
                    0 <= r < cells.len() ==> #[trigger] table[j].values[r] == match cells[r] {
                        ColumnData::I32(Some(v)) => Datum::Int32(v),
                        _ => Datum::Null,
                    }
            }
            &&& (forall|r: int| 0 <= r < cells.len() ==> #[trigger] cells[r] is I64) && (exists|r: int|
                0 <= r < cells.len() && (#[trigger] cells[r] matches ColumnData::I64(Some(_)))) ==> {
                &&& table[j].dtype == DType::Int64
                &&& forall|r: int|
                    0 <= r < cells.len() ==> #[trigger] table[j].values[r] == match cells[r] {
                        ColumnData::I64(Some(v)) => Datum::Int64(v),
                        _ => Datum::Null,
                    }
            }
            &&& (forall|r: int| 0 <= r < cells.len() ==> #[trigger] cells[r] is F32) && (exists|r: int|
                0 <= r < cells.len() && (#[trigger] cells[r] matches ColumnData::F32(Some(_)))) ==> {
                &&& table[j].dtype == DType::Float32
                &&& forall|r: int|
                    0 <= r < cells.len() ==> #[trigger] table[j].values[r] == match cells[r] {
                        ColumnData::F32(Some(b)) => Datum::Float32(b),
                        _ => Datum::Null,
                    }
            }
            &&& (forall|r: int| 0 <= r < cells.len() ==> #[trigger] cells[r] is F64) && (exists|r: int|
                0 <= r < cells.len() && (#[trigger] cells[r] matches ColumnData::F64(Some(_)))) ==> {
                &&& table[j].dtype == DType::Float64
                &&& forall|r: int|
                    0 <= r < cells.len() ==> #[trigger] table[j].values[r] == match cells[r] {
                        ColumnData::F64(Some(b)) => Datum::Float64(b),
                        _ => Datum::Null,
                    }
            }
            &&& (forall|r: int| 0 <= r < cells.len() ==> #[trigger] cells[r] is Bit) && (exists|r: int|
                0 <= r < cells.len() && (#[trigger] cells[r] matches ColumnData::Bit(Some(_)))) ==> {
                &&& table[j].dtype == DType::Boolean
                &&& forall|r: int|
                    0 <= r < cells.len() ==> #[trigger] table[j].values[r] == match cells[r] {
                        ColumnData::Bit(Some(b)) => Datum::Boolean(b),
                        _ => Datum::Null,
                    }
            }
            &&& (forall|r: int| 0 <= r < cells.len() ==> #[trigger] cells[r] is String) && (exists|r: int|
                0 <= r < cells.len() && (#[trigger] cells[r] matches ColumnData::String(Some(_)))) ==> {
                &&& table[j].dtype == DType::String
                &&& forall|r: int|
                    0 <= r < cells.len() ==> #[trigger] table[j].values[r] == match cells[r] {
                        ColumnData::String(Some(s)) => Datum::String(s@),
                        _ => Datum::Null,
                    }
            }
            &&& (forall|r: int| 0 <= r < cells.len() ==> #[trigger] cells[r] is U8) && (exists|r: int|
                0 <= r < cells.len() && (#[trigger] cells[r] matches ColumnData::U8(Some(_)))) ==> {
                let wide = exists|r: int|
                    0 <= r < cells.len() && (#[trigger] cells[r] matches ColumnData::U8(Some(v)) && v
                        > 127);
                &&& table[j].dtype == if wide {
                    DType::Int16
                } else {
                    DType::Int8
                }
                &&& forall|r: int|
                    0 <= r < cells.len() ==> #[trigger] table[j].values[r] == match cells[r] {
                        ColumnData::U8(Some(v)) => if wide {
                            Datum::Int16(v as i16)
                        } else {
                            Datum::Int8(v as i8)
                        },
                        _ => Datum::Null,
                    }
            }
            &&& typed(
                columns[j].name@,
                cells,
                metadata_dtype(false, columns[j].column_type),
                table[j],
            )
        }),
{
    whole_result_is_kept(false, columns, items);
    let view = run(false, items)->Ok_0;
    let cells = Seq::new((items.len() - 1) as nat, |r: int| items[r + 1]->Row_0@[j]);
    assert(view.column_len(j) == items.len() - 1);
    finished_columns_match(view, table);
    assert(view.column_finished(j, table[j]));
    assert forall|r: int| 0 <= r < cells.len() implies #[trigger] cells[r]
        == view.table->Typed_0[j][r] by {
        assert(view.table->Typed_0[j][r] == row_at(items, r + 1)[j]);
    }
    assert(cells =~= view.table->Typed_0[j]);
    typed_columns_of_one_kind(
        columns[j].name@,
        cells,
        metadata_dtype(false, columns[j].column_type),
        table[j],
    );
}

} // verus!
