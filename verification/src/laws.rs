//! What holds of whole downloads, and of what they are made of: `cells` and their texts,
//! `dates`, the `columns` that cells become, the `streams` that rows come in, and
//! `connections`.

use crate::column::{
    cell_text, lacks_value, null_is_empty_text, number_is_not_empty_text, renderable, ColumnData,
};
use crate::download::{
    finished_columns_match, row_text, DownloadView, Refusal, StreamItem, TableView,
};
use crate::metadata::{
    delivered_as, metadata_decides_the_dtype, metadata_dtype, settled_dtype, settled_entry,
    ColumnInfo,
};
use crate::series::{
    covered, null_stays_null, only_null_becomes_null, ColumnView, DType, Datum,
};
use vstd::prelude::*;

pub mod cells;
pub mod columns;
pub mod connections;
pub mod dates;
pub mod streams;

verus! {

/// The download after the items of a stream, or the refusal of the first of them that
/// cannot be taken.
pub open spec fn run<'a>(map2string: bool, items: Seq<StreamItem<'a>>) -> Result<
    DownloadView<'a>,
    Refusal,
>
    decreases items.len(),
{
    if items.len() == 0 {
        DownloadView::begun(map2string, None)
    } else if items.len() == 1 {
        DownloadView::begun(map2string, Some(items[0]))
    } else {
        match run(map2string, items.drop_last()) {
            Ok(view) => view.accepted(items.last()),
            Err(refusal) => Err(refusal),
        }
    }
}

/// The cells of the row at a place in a stream.
pub open spec fn row_at<'a>(items: Seq<StreamItem<'a>>, i: int) -> Seq<ColumnData<'a>> {
    items[i]->Row_0@
}

/// Whether a stream is that of one whole result: its metadata, then rows with a cell
/// for each column. Where the cells are to become texts, each must have one.
pub open spec fn whole_result(
    map2string: bool,
    columns: Seq<ColumnInfo>,
    items: Seq<StreamItem<'_>>,
) -> bool {
    &&& items.len() > 0
    &&& items[0] matches StreamItem::Metadata { result_index, columns: c } && result_index == 0
        && c@ == columns
    &&& forall|i: int|
        1 <= i < items.len() ==> #[trigger] items[i] is Row && row_at(items, i).len()
            == columns.len()
    &&& map2string ==> forall|i: int, j: int|
        1 <= i < items.len() && 0 <= j < columns.len() ==> renderable(
            #[trigger] row_at(items, i)[j],
        )
}

/// A whole result is never refused, and nothing of it is lost, changed or moved: the
/// entry of a column at a row is the cell of that row at that column, or its text.
pub proof fn whole_result_is_kept(
    map2string: bool,
    columns: Seq<ColumnInfo>,
    items: Seq<StreamItem<'_>>,
)
    requires
        whole_result(map2string, columns, items),
    ensures
        run(map2string, items) is Ok,
        run(map2string, items)->Ok_0.wf(),
        run(map2string, items)->Ok_0.columns == columns,
        run(map2string, items)->Ok_0.table is Text <==> map2string,
        forall|j: int|
            0 <= j < columns.len() ==> #[trigger] run(map2string, items)->Ok_0.column_len(j)
                == items.len() - 1,
        map2string ==> forall|j: int, r: int|
            0 <= j < columns.len() && 0 <= r < items.len() - 1
                ==> #[trigger] run(map2string, items)->Ok_0.table->Text_0[j][r] == cell_text(
                row_at(items, r + 1)[j],
            ),
        !map2string ==> forall|j: int, r: int|
            0 <= j < columns.len() && 0 <= r < items.len() - 1
                ==> #[trigger] run(map2string, items)->Ok_0.table->Typed_0[j][r] == row_at(
                items,
                r + 1,
            )[j],
    decreases items.len(),
{
    if items.len() > 1 {
        let shorter = items.drop_last();
        assert forall|i: int| 1 <= i < shorter.len() implies #[trigger] shorter[i] is Row && row_at(
            shorter,
            i,
        ).len() == columns.len() by {
            assert(items[i] is Row);
        }
        assert forall|i: int, j: int|
            map2string && 1 <= i < shorter.len() && 0 <= j < columns.len() implies renderable(
            #[trigger] row_at(shorter, i)[j],
        ) by {
            assert(renderable(row_at(items, i)[j]));
        }
        whole_result_is_kept(map2string, columns, shorter);
        let last = items.len() - 1;
        let before = run(map2string, shorter)->Ok_0;
        let row = row_at(items, last);
        assert(items[last] is Row);
        assert(items.last() == items[last]);
        if map2string {
            assert forall|i: int| 0 <= i < row.len() && i <= columns.len() implies renderable(
                #[trigger] row[i],
            ) by {
                assert(renderable(row_at(items, last)[i]));
            }
        }
        let after = run(map2string, items)->Ok_0;
        assert forall|j: int| 0 <= j < columns.len() implies #[trigger] after.column_len(j)
            == items.len() - 1 by {
            assert(before.column_len(j) == shorter.len() - 1);
        }
        assert forall|j: int, r: int|
            map2string && 0 <= j < columns.len() && 0 <= r < items.len()
                - 1 implies #[trigger] after.table->Text_0[j][r] == cell_text(
            row_at(items, r + 1)[j],
        ) by {
            assert(before.column_len(j) == shorter.len() - 1);
            if r < shorter.len() - 1 {
                assert(before.table->Text_0[j][r] == cell_text(row_at(shorter, r + 1)[j]));
            }
        }
        assert forall|j: int, r: int|
            !map2string && 0 <= j < columns.len() && 0 <= r < items.len()
                - 1 implies #[trigger] after.table->Typed_0[j][r] == row_at(items, r + 1)[j] by {
            assert(before.column_len(j) == shorter.len() - 1);
            if r < shorter.len() - 1 {
                assert(before.table->Typed_0[j][r] == row_at(shorter, r + 1)[j]);
            }
        }
    }
}

/// Whether no two columns of a result have the same name.
pub open spec fn distinct_names(columns: Seq<ColumnInfo>) -> bool {
    forall|i: int, j: int|
        0 <= i < j < columns.len() ==> (#[trigger] columns[i]).name@ != (#[trigger] columns[j]).name@
}

/// A whole result whose columns have different names makes a data frame: its columns
/// are those of the result, in order and under their names, and each has an entry for
/// each row.
pub proof fn whole_result_makes_a_frame(
    map2string: bool,
    columns: Seq<ColumnInfo>,
    items: Seq<StreamItem<'_>>,
    table: Seq<ColumnView>,
)
    requires
        whole_result(map2string, columns, items),
        distinct_names(columns),
    ensures
        run(map2string, items) is Ok,
        run(map2string, items)->Ok_0.makes_frame(),
        run(map2string, items)->Ok_0.finished(table) ==> table.len() == columns.len() && forall|
            j: int,
        |
            0 <= j < columns.len() ==> (#[trigger] table[j]).name == columns[j].name@
                && table[j].values.len() == items.len() - 1,
{
    whole_result_is_kept(map2string, columns, items);
    let view = run(map2string, items)->Ok_0;
    assert forall|j: int| 0 <= j < columns.len() implies #[trigger] view.column_len(j)
        == view.column_len(0) by {
        assert(view.column_len(j) == items.len() - 1);
        assert(view.column_len(0) == items.len() - 1);
    }
    if view.finished(table) {
        finished_columns_match(view, table);
        assert forall|j: int| 0 <= j < columns.len() implies (#[trigger] table[j]).name
            == columns[j].name@ && table[j].values.len() == items.len() - 1 by {
            assert(view.column_len(j) == items.len() - 1);
        }
    }
}

/// Where every value becomes a text, every column is one of texts without nulls, and
/// each entry is the text of its cell; that of a `NULL` is the empty text.
pub proof fn text_download_holds_texts(
    columns: Seq<ColumnInfo>,
    items: Seq<StreamItem<'_>>,
    table: Seq<ColumnView>,
    j: int,
    r: int,
)
    requires
        whole_result(true, columns, items),
        run(true, items)->Ok_0.finished(table),
        0 <= j < columns.len(),
        0 <= r < items.len() - 1,
    ensures
        table[j].dtype == DType::String,
        table[j].values[r] == Datum::String(cell_text(row_at(items, r + 1)[j])),
        lacks_value(row_at(items, r + 1)[j]) ==> table[j].values[r] == Datum::String(Seq::empty()),
{
    whole_result_is_kept(true, columns, items);
    let view = run(true, items)->Ok_0;
    assert(view.column_finished(j, table[j]));
    assert(view.column_len(j) == items.len() - 1);
    assert(view.table->Text_0[j][r] == cell_text(row_at(items, r + 1)[j]));
    if lacks_value(row_at(items, r + 1)[j]) {
        null_is_empty_text(row_at(items, r + 1)[j]);
    }
}

/// Where values keep their types, a `NULL` is a null of the finished column, and so is a
/// value of a type that has no counterpart.
pub proof fn typed_download_keeps_nulls(
    columns: Seq<ColumnInfo>,
    items: Seq<StreamItem<'_>>,
    table: Seq<ColumnView>,
    j: int,
    r: int,
)
    requires
        whole_result(false, columns, items),
        run(false, items)->Ok_0.finished(table),
        0 <= j < columns.len(),
        0 <= r < items.len() - 1,
        lacks_value(row_at(items, r + 1)[j]) || !covered(row_at(items, r + 1)[j]),
    ensures
        table[j].values[r] == Datum::Null,
{
    whole_result_is_kept(false, columns, items);
    let view = run(false, items)->Ok_0;
    assert(view.column_finished(j, table[j]));
    assert(view.column_len(j) == items.len() - 1);
    assert(view.table->Typed_0[j][r] == row_at(items, r + 1)[j]);
    null_stays_null(
        columns[j].name@,
        view.table->Typed_0[j],
        metadata_dtype(false, columns[j].column_type),
        r,
        table[j],
    );
}

/// Where values keep their types, a value of a type that has a counterpart is never
/// lost: only its `NULL` is a null of the finished column.
pub proof fn typed_download_keeps_values(
    columns: Seq<ColumnInfo>,
    items: Seq<StreamItem<'_>>,
    table: Seq<ColumnView>,
    j: int,
    r: int,
)
    requires
        whole_result(false, columns, items),
        run(false, items)->Ok_0.finished(table),
        0 <= j < columns.len(),
        0 <= r < items.len() - 1,
        covered(row_at(items, r + 1)[j]),
    ensures
        table[j].values[r] == Datum::Null <==> lacks_value(row_at(items, r + 1)[j]),
{
    whole_result_is_kept(false, columns, items);
    let view = run(false, items)->Ok_0;
    assert(view.column_finished(j, table[j]));
    assert(view.column_len(j) == items.len() - 1);
    assert(view.table->Typed_0[j][r] == row_at(items, r + 1)[j]);
    only_null_becomes_null(
        columns[j].name@,
        view.table->Typed_0[j],
        metadata_dtype(false, columns[j].column_type),
        r,
        table[j],
    );
}

/// The cells of a column of a stream of metadata and rows.
pub open spec fn column_at<'a>(items: Seq<StreamItem<'a>>, j: int) -> Seq<ColumnData<'a>> {
    Seq::new((items.len() - 1) as nat, |r: int| row_at(items, r + 1)[j])
}

/// Where values keep their types, a column whose metadata names a data type has that
/// type, and each entry is what its cell becomes; this holds of results without rows
/// and of columns of nothing but `NULL` too. The one exception are tiny integers of
/// which one is too large for that type: they are all integers of 16 bits.
pub proof fn typed_download_follows_metadata(
    columns: Seq<ColumnInfo>,
    items: Seq<StreamItem<'_>>,
    table: Seq<ColumnView>,
    j: int,
    dtype: DType,
)
    requires
        whole_result(false, columns, items),
        run(false, items)->Ok_0.finished(table),
        0 <= j < columns.len(),
        metadata_dtype(false, columns[j].column_type) == Some(dtype),
        forall|i: int|
            1 <= i < items.len() ==> delivered_as(
                columns[j].column_type,
                #[trigger] row_at(items, i)[j],
            ),
    ensures
        table[j] == (ColumnView {
            name: columns[j].name@,
            dtype: settled_dtype(dtype, column_at(items, j)),
            values: column_at(items, j).map_values(
                |c: ColumnData<'_>| settled_entry(c, settled_dtype(dtype, column_at(items, j))),
            ),
        }),
{
    whole_result_is_kept(false, columns, items);
    let view = run(false, items)->Ok_0;
    let cells = view.table->Typed_0[j];
    assert(view.column_finished(j, table[j]));
    assert(view.column_len(j) == items.len() - 1);
    assert forall|r: int| 0 <= r < cells.len() implies #[trigger] cells[r] == row_at(
        items,
        r + 1,
    )[j] by {
        assert(view.table->Typed_0[j][r] == row_at(items, r + 1)[j]);
    }
    assert(cells =~= column_at(items, j));
    metadata_decides_the_dtype(columns[j].name@, columns[j].column_type, cells, dtype, table[j]);
}

/// The same result makes tables of the same shape, with the same names in the same
/// order, whether or not every value becomes a text. Where the one has a null the other
/// has the empty text, unless the value is of a type that only has a text; and outside
/// columns of texts, the empty text stands for nothing but a null.
pub proof fn text_and_typed_downloads_agree(
    columns: Seq<ColumnInfo>,
    items: Seq<StreamItem<'_>>,
    text: Seq<ColumnView>,
    typed: Seq<ColumnView>,
)
    requires
        whole_result(true, columns, items),
        run(true, items)->Ok_0.finished(text),
        run(false, items)->Ok_0.finished(typed),
    ensures
        text.len() == columns.len(),
        typed.len() == columns.len(),
        forall|j: int|
            #![trigger text[j]]
            #![trigger typed[j]]
            0 <= j < columns.len() ==> {
                &&& text[j].name == columns[j].name@
                &&& typed[j].name == columns[j].name@
                &&& text[j].values.len() == items.len() - 1
                &&& typed[j].values.len() == items.len() - 1
            },
        forall|j: int, r: int|
            #![trigger text[j].values[r]]
            #![trigger typed[j].values[r]]
            0 <= j < columns.len() && 0 <= r < items.len() - 1 && (covered(
                row_at(items, r + 1)[j],
            ) || lacks_value(row_at(items, r + 1)[j])) && typed[j].values[r] == Datum::Null
                ==> text[j].values[r] == Datum::String(Seq::empty()),
        forall|j: int, r: int|
            #![trigger text[j].values[r]]
            #![trigger typed[j].values[r]]
            0 <= j < columns.len() && 0 <= r < items.len() - 1 && !(row_at(
                items,
                r + 1,
            )[j] is String) && text[j].values[r] == Datum::String(Seq::empty())
                ==> typed[j].values[r] == Datum::Null,
{
    whole_result_is_kept(true, columns, items);
    whole_result_is_kept(false, columns, items);
    let (view, view0) = (run(true, items)->Ok_0, run(false, items)->Ok_0);
    finished_columns_match(view, text);
    finished_columns_match(view0, typed);
    assert forall|j: int| 0 <= j < columns.len() implies #[trigger] text[j].values.len()
        == items.len() - 1 && typed[j].values.len() == items.len() - 1 by {
        assert(view.column_len(j) == items.len() - 1);
        assert(view0.column_len(j) == items.len() - 1);
    }
    assert forall|j: int, r: int| 0 <= j < columns.len() && 0 <= r < items.len() - 1 implies {
        let cell = row_at(items, r + 1)[j];
        let (a, b) = (#[trigger] text[j].values[r], #[trigger] typed[j].values[r]);
        &&& (covered(cell) || lacks_value(cell)) && b == Datum::Null ==> a == Datum::String(
            Seq::empty(),
        )
        &&& !(cell is String) && a == Datum::String(Seq::empty()) ==> b == Datum::Null
    } by {
        let cell = row_at(items, r + 1)[j];
        text_download_holds_texts(columns, items, text, j, r);
        if lacks_value(cell) || !covered(cell) {
            typed_download_keeps_nulls(columns, items, typed, j, r);
        } else {
            typed_download_keeps_values(columns, items, typed, j, r);
            if !(cell is String) {
                number_is_not_empty_text(cell);
            }
        }
    }
}

/// Whether one table holds the texts of the cells of another.
pub open spec fn holds_texts_of(
    text: Seq<Seq<Seq<char>>>,
    typed: Seq<Seq<ColumnData<'_>>>,
) -> bool {
    &&& text.len() == typed.len()
    &&& forall|j: int| 0 <= j < text.len() ==> (#[trigger] text[j]) == row_text(typed[j])
}

/// To turn every value into a text changes nothing else: a stream that can be taken
/// so can be taken with the values as they are, and the one table holds the texts of
/// the cells of the other.
pub proof fn text_download_mirrors_typed(items: Seq<StreamItem<'_>>)
    requires
        run(true, items) is Ok,
    ensures
        run(false, items) is Ok,
        run(true, items)->Ok_0.columns == run(false, items)->Ok_0.columns,
        run(true, items)->Ok_0.table is Text,
        run(false, items)->Ok_0.table is Typed,
        run(true, items)->Ok_0.wf(),
        run(false, items)->Ok_0.wf(),
        holds_texts_of(
            run(true, items)->Ok_0.table->Text_0,
            run(false, items)->Ok_0.table->Typed_0,
        ),
    decreases items.len(),
{
    if items.len() <= 1 {
        let (text, typed) = (
            run(true, items)->Ok_0.table->Text_0,
            run(false, items)->Ok_0.table->Typed_0,
        );
        assert forall|j: int| 0 <= j < text.len() implies (#[trigger] text[j]) == row_text(
            typed[j],
        ) by {
            assert(text[j] =~= row_text(typed[j]));
        }
    } else {
        let shorter = items.drop_last();
        text_download_mirrors_typed(shorter);
        let (text, typed) = (
            run(true, items)->Ok_0.table->Text_0,
            run(false, items)->Ok_0.table->Typed_0,
        );
        let (text0, typed0) = (
            run(true, shorter)->Ok_0.table->Text_0,
            run(false, shorter)->Ok_0.table->Typed_0,
        );
        assert forall|j: int| 0 <= j < text.len() implies (#[trigger] text[j]) == row_text(
            typed[j],
        ) by {
            assert(text0[j] == row_text(typed0[j]));
            assert(text[j] =~= row_text(typed[j]));
        }
    }
}

} // verus!
