//! From the items of a query stream to a table.
//!
//! A download begins with the first item of the stream, accepts the items that
//! follow one by one, and is finished into a polars `DataFrame`.

use crate::column::{cell_text, column_data_to_string, renderable, ColumnData, TiberiusColumn};
use crate::metadata::{column_dtype, metadata_dtype, ColumnInfo};
use crate::series::{
    cells_fit, column_fits, series_view, strings_fit, text_series, text_view, texts, texts_fit,
    typed, typed_series, ColumnView,
};
use polars::prelude::{Column, DataFrame, PolarsError, Series};
use vstd::prelude::*;

verus! {

/// A polars `DataFrame`: named columns of equal height.
#[verifier::external_type_specification]
#[verifier::external_body]
pub struct ExDataFrame(polars::prelude::DataFrame);

/// A column of a polars `DataFrame`.
#[verifier::external_type_specification]
#[verifier::external_body]
pub struct ExColumn(polars::prelude::Column);

/// The columns of a data frame, in order.
pub uninterp spec fn frame_columns(frame: polars::prelude::DataFrame) -> Seq<ColumnView>;

/// The number of rows of a data frame.
pub uninterp spec fn frame_height(frame: polars::prelude::DataFrame) -> nat;

/// Whether columns can stand in one data frame: no two have the same name, and all
/// are as long as the first.
pub open spec fn columns_match(columns: Seq<ColumnView>) -> bool {
    &&& forall|i: int, j: int|
        0 <= i < j < columns.len() ==> (#[trigger] columns[i]).name != (#[trigger] columns[j]).name
    &&& forall|i: int|
        0 <= i < columns.len() ==> (#[trigger] columns[i]).values.len() == columns[0].values.len()
}

/// Puts series into a data frame with `DataFrame::new_infer_height`, each as the
/// column that `Column::from` makes of it.
///
/// What is claimed is that this succeeds exactly where the names differ and the
/// lengths agree, and that the frame then has these columns in this order and the
/// height of the first of them, or none.
#[verifier::external_body]
fn frame_of_series(series: Vec<Series>) -> (frame: Result<DataFrame, PolarsError>)
    ensures
        frame is Ok <==> columns_match(series@.map_values(|s: Series| series_view(s))),
        frame is Ok ==> frame_columns(frame->Ok_0) == series@.map_values(|s: Series| series_view(s)),
        frame is Ok ==> frame_height(frame->Ok_0) == if series@.len() == 0 {
            0
        } else {
            series_view(series@[0]).values.len()
        },
{
    DataFrame::new_infer_height(series.into_iter().map(Column::from).collect())
}

/// The height and width of a data frame, with `DataFrame::shape`.
///
/// What is claimed is that they are its number of rows and of columns.
#[verifier::external_body]
fn frame_shape(frame: &DataFrame) -> (shape: (usize, usize))
    ensures
        shape.0 == frame_height(*frame),
        shape.1 == frame_columns(*frame).len(),
{
    frame.shape()
}

/// An item of a query stream.
pub enum StreamItem<'a> {
    /// The columns of a result; results are counted from 0.
    Metadata { result_index: usize, columns: Vec<ColumnInfo> },
    /// The cells of a row.
    Row(Vec<ColumnData<'a>>),
}

/// Why an item of a query stream cannot be taken.
#[derive(Clone, Copy, PartialEq, Eq, Structural)]
pub enum Refusal {
    /// The stream begins with a row.
    RowBeforeMetadata,
    /// The stream begins with the metadata of another than the first result.
    LaterResultFirst,
    /// A row has more cells than the result has columns.
    RowTooWide,
    /// A date lies outside the calendar.
    DateOutOfRange,
}

impl Refusal {
    /// What to tell the user.
    pub fn message(&self) -> (s: &'static str)
        ensures
            s@ == match *self {
                Refusal::RowBeforeMetadata => "Expected first item to be the column metadata."@,
                Refusal::LaterResultFirst =>
                    "Expected first item to be the column metadata with meta.result_index() == 0"@,
                Refusal::RowTooWide => "A row has more cells than the result has columns."@,
                Refusal::DateOutOfRange => "A date lies outside the calendar."@,
            },
    {
        match self {
            Refusal::RowBeforeMetadata => "Expected first item to be the column metadata.",
            Refusal::LaterResultFirst =>
                "Expected first item to be the column metadata with meta.result_index() == 0",
            Refusal::RowTooWide => "A row has more cells than the result has columns.",
            Refusal::DateOutOfRange => "A date lies outside the calendar.",
        }
    }
}

/// The columns of a table: texts, or cells as they came.
pub enum TableView<'a> {
    Text(Seq<Seq<Seq<char>>>),
    Typed(Seq<Seq<ColumnData<'a>>>),
}

/// What a download has collected: the columns of the result, and for each of them
/// its entries so far.
pub struct DownloadView<'a> {
    pub columns: Seq<ColumnInfo>,
    pub table: TableView<'a>,
}

/// A table of columns without entries.
pub open spec fn empty_table<T>(width: nat) -> Seq<Seq<T>> {
    Seq::new(width, |i: int| Seq::empty())
}

/// A table with one more row: each cell goes to the end of its column.
pub open spec fn push_row<T>(table: Seq<Seq<T>>, row: Seq<T>) -> Seq<Seq<T>> {
    Seq::new(
        table.len(),
        |i: int|
            if i < row.len() {
                table[i].push(row[i])
            } else {
                table[i]
            },
    )
}

/// The texts of the cells of a row.
pub open spec fn row_text(row: Seq<ColumnData<'_>>) -> Seq<Seq<char>> {
    row.map_values(|c: ColumnData<'_>| cell_text(c))
}

/// Whether a cell without a text comes up before a row turns out to be too wide.
pub open spec fn unprintable_date(width: nat, row: Seq<ColumnData<'_>>) -> bool {
    exists|i: int| 0 <= i < row.len() && i <= width && !renderable(#[trigger] row[i])
}

impl<'a> DownloadView<'a> {
    /// The download after the first item of the stream, or after a stream without
    /// items.
    pub open spec fn begun(map2string: bool, first: Option<StreamItem<'a>>) -> Result<
        DownloadView<'a>,
        Refusal,
    > {
        match first {
            Some(StreamItem::Row(_)) => Err(Refusal::RowBeforeMetadata),
            Some(StreamItem::Metadata { result_index, columns }) => if result_index == 0 {
                Ok(DownloadView::empty(map2string, columns@))
            } else {
                Err(Refusal::LaterResultFirst)
            },
            None => Ok(DownloadView::empty(map2string, Seq::empty())),
        }
    }

    /// A download of a result with these columns, before its first row.
    pub open spec fn empty(map2string: bool, columns: Seq<ColumnInfo>) -> DownloadView<'a> {
        DownloadView {
            columns,
            table: if map2string {
                TableView::Text(empty_table(columns.len()))
            } else {
                TableView::Typed(empty_table(columns.len()))
            },
        }
    }

    /// The download after one more item: a row is added, metadata is passed over.
    pub open spec fn accepted(self, item: StreamItem<'a>) -> Result<DownloadView<'a>, Refusal> {
        match item {
            StreamItem::Metadata { .. } => Ok(self),
            StreamItem::Row(row) => match self.table {
                TableView::Text(table) => if unprintable_date(self.columns.len(), row@) {
                    Err(Refusal::DateOutOfRange)
                } else if row@.len() > self.columns.len() {
                    Err(Refusal::RowTooWide)
                } else {
                    Ok(
                        DownloadView {
                            table: TableView::Text(push_row(table, row_text(row@))),
                            ..self
                        },
                    )
                },
                TableView::Typed(table) => if row@.len() > self.columns.len() {
                    Err(Refusal::RowTooWide)
                } else {
                    Ok(DownloadView { table: TableView::Typed(push_row(table, row@)), ..self })
                },
            },
        }
    }

    /// Whether there is a column of entries for each column of the result.
    pub open spec fn wf(self) -> bool {
        match self.table {
            TableView::Text(table) => table.len() == self.columns.len(),
            TableView::Typed(table) => table.len() == self.columns.len(),
        }
    }

    /// Whether polars can hold every column.
    pub open spec fn fits(self) -> bool {
        match self.table {
            TableView::Text(table) => forall|i: int|
                0 <= i < table.len() ==> texts_fit(#[trigger] table[i]),
            TableView::Typed(table) => forall|i: int|
                0 <= i < table.len() ==> column_fits(#[trigger] table[i]),
        }
    }

    /// The number of entries of a column.
    pub open spec fn column_len(self, i: int) -> nat {
        match self.table {
            TableView::Text(table) => table[i].len(),
            TableView::Typed(table) => table[i].len(),
        }
    }

    /// Whether the columns can stand in one data frame: no two have the same name, and
    /// all are as long as the first.
    pub open spec fn makes_frame(self) -> bool {
        &&& forall|i: int, j: int|
            0 <= i < j < self.columns.len() ==> (#[trigger] self.columns[i]).name@ != (
            #[trigger] self.columns[j]).name@
        &&& forall|i: int|
            0 <= i < self.columns.len() ==> #[trigger] self.column_len(i) == self.column_len(0)
    }

    /// Whether one of the columns is finished as this one.
    pub open spec fn column_finished(self, i: int, column: ColumnView) -> bool {
        match self.table {
            TableView::Text(table) => column == text_view(self.columns[i].name@, table[i]),
            TableView::Typed(table) => typed(
                self.columns[i].name@,
                table[i],
                metadata_dtype(false, self.columns[i].column_type),
                column,
            ),
        }
    }

    /// Whether the table is finished with these columns.
    pub open spec fn finished(self, columns: Seq<ColumnView>) -> bool {
        &&& columns.len() == self.columns.len()
        &&& forall|i: int|
            0 <= i < columns.len() ==> self.column_finished(i, #[trigger] columns[i])
    }
}

/// The columns of a finished table have the names and lengths of those collected.
pub proof fn finished_columns_match(view: DownloadView<'_>, columns: Seq<ColumnView>)
    requires
        view.wf(),
        view.finished(columns),
    ensures
        forall|i: int|
            0 <= i < columns.len() ==> (#[trigger] columns[i]).name == view.columns[i].name@,
        forall|i: int|
            0 <= i < columns.len() ==> (#[trigger] columns[i]).values.len() == view.column_len(i),
        columns_match(columns) <==> view.makes_frame(),
{
    assert forall|i: int| 0 <= i < columns.len() implies (#[trigger] columns[i]).name
        == view.columns[i].name@ && columns[i].values.len() == view.column_len(i) by {
        assert(view.column_finished(i, columns[i]));
    }
    if columns_match(columns) {
        assert forall|i: int, j: int| 0 <= i < j < view.columns.len() implies (
        #[trigger] view.columns[i]).name@ != (#[trigger] view.columns[j]).name@ by {
            assert(columns[i].name != columns[j].name);
        }
        assert forall|i: int| 0 <= i < view.columns.len() implies #[trigger] view.column_len(i)
            == view.column_len(0) by {
            assert(columns[i].values.len() == columns[0].values.len());
        }
    }
    if view.makes_frame() {
        assert forall|i: int, j: int| 0 <= i < j < columns.len() implies (
        #[trigger] columns[i]).name != (#[trigger] columns[j]).name by {
            assert(view.columns[i].name@ != view.columns[j].name@);
        }
        assert forall|i: int| 0 <= i < columns.len() implies (#[trigger] columns[i]).values.len()
            == columns[0].values.len() by {
            assert(view.column_len(i) == view.column_len(0));
        }
    }
}

/// The entries collected so far, column by column.
enum Table<'a> {
    Text(Vec<Vec<String>>),
    Typed(Vec<Vec<ColumnData<'a>>>),
}

/// A download in progress.
pub struct Download<'a> {
    columns: Vec<ColumnInfo>,
    table: Table<'a>,
}

impl<'a> View for Download<'a> {
    type V = DownloadView<'a>;

    closed spec fn view(&self) -> DownloadView<'a> {
        DownloadView {
            columns: self.columns@,
            table: match self.table {
                Table::Text(table) => TableView::Text(
                    table@.map_values(|c: Vec<String>| texts(c@)),
                ),
                Table::Typed(table) => TableView::Typed(
                    table@.map_values(|c: Vec<ColumnData<'a>>| c@),
                ),
            },
        }
    }
}

/// Why a row cannot be turned into texts of a table of this width, if it cannot.
fn unprintable_row(row: &Vec<ColumnData<'_>>, width: usize) -> (refusal: Option<Refusal>)
    ensures
        refusal == if unprintable_date(width as nat, row@) {
            Some(Refusal::DateOutOfRange)
        } else if row@.len() > width {
            Some(Refusal::RowTooWide)
        } else {
            None
        },
{
    let mut i: usize = 0;
    while i < row.len()
        invariant
            i <= row@.len(),
            i <= width,
            forall|j: int| 0 <= j < i ==> renderable(#[trigger] row@[j]),
        decreases row@.len() - i,
    {
        if !row[i].is_renderable() {
            return Some(Refusal::DateOutOfRange);
        }
        if i >= width {
            return Some(Refusal::RowTooWide);
        }
        i = i + 1;
    }
    None
}

/// Adds the texts of a row to the columns of a table.
fn push_texts(table: &mut Vec<Vec<String>>, row: Vec<ColumnData<'_>>)
    requires
        row@.len() <= old(table)@.len(),
        forall|j: int| 0 <= j < row@.len() ==> renderable(#[trigger] row@[j]),
    ensures
        final(table)@.map_values(|c: Vec<String>| texts(c@)) == push_row(
            old(table)@.map_values(|c: Vec<String>| texts(c@)),
            row_text(row@),
        ),
{
    let count = row.len();
    let mut k: usize = 0;
    for cell in it: row
        invariant
            it.seq() == row@,
            k == it.index(),
            count == row@.len(),
            row@.len() <= table@.len(),
            table@.len() == old(table)@.len(),
            forall|j: int| 0 <= j < row@.len() ==> renderable(#[trigger] row@[j]),
            forall|j: int|
                0 <= j < k ==> texts((#[trigger] table@[j])@) == texts(old(table)@[j]@).push(
                    cell_text(row@[j]),
                ),
            forall|j: int| k <= j < table@.len() ==> #[trigger] table@[j] == old(table)@[j],
    {
        let ghost before = table@[k as int]@;
        table[k].push(column_data_to_string(cell));
        assert(texts(table@[k as int]@) =~= texts(before).push(cell_text(row@[k as int])));
        k = k + 1;
    }
    assert(table@.map_values(|c: Vec<String>| texts(c@)) =~= push_row(
        old(table)@.map_values(|c: Vec<String>| texts(c@)),
        row_text(row@),
    ));
}

/// Adds the cells of a row to the columns of a table.
fn push_cells<'a>(table: &mut Vec<Vec<ColumnData<'a>>>, row: Vec<ColumnData<'a>>)
    requires
        row@.len() <= old(table)@.len(),
    ensures
        final(table)@.map_values(|c: Vec<ColumnData<'a>>| c@) == push_row(
            old(table)@.map_values(|c: Vec<ColumnData<'a>>| c@),
            row@,
        ),
{
    let count = row.len();
    let mut k: usize = 0;
    for cell in it: row
        invariant
            it.seq() == row@,
            k == it.index(),
            count == row@.len(),
            row@.len() <= table@.len(),
            table@.len() == old(table)@.len(),
            forall|j: int|
                0 <= j < k ==> (#[trigger] table@[j])@ == old(table)@[j]@.push(row@[j]),
            forall|j: int| k <= j < table@.len() ==> #[trigger] table@[j] == old(table)@[j],
    {
        table[k].push(cell);
        k = k + 1;
    }
    assert(table@.map_values(|c: Vec<ColumnData<'a>>| c@) =~= push_row(
        old(table)@.map_values(|c: Vec<ColumnData<'a>>| c@),
        row@,
    ));
}

/// A finished download.
pub struct Downloaded {
    pub frame: DataFrame,
    pub rows: usize,
}

/// Why a download cannot be finished.
pub enum FinishError {
    /// A column has more entries, or a longer text, than polars can hold.
    Oversized,
    /// The columns do not stand together in a data frame: two have the same name, or
    /// they differ in length.
    Frame(PolarsError),
}

/// Whether polars can hold every column of texts.
fn all_texts_fit(table: &Vec<Vec<String>>) -> (fit: bool)
    ensures
        fit <==> forall|i: int| 0 <= i < table@.len() ==> texts_fit(texts((#[trigger] table@[i])@)),
{
    let mut i: usize = 0;
    while i < table.len()
        invariant
            i <= table@.len(),
            forall|j: int| 0 <= j < i ==> texts_fit(texts((#[trigger] table@[j])@)),
        decreases table@.len() - i,
    {
        if !strings_fit(&table[i]) {
            return false;
        }
        i = i + 1;
    }
    true
}

/// Whether polars can hold every column of cells.
fn all_cells_fit(table: &Vec<Vec<ColumnData<'_>>>) -> (fit: bool)
    ensures
        fit <==> forall|i: int| 0 <= i < table@.len() ==> column_fits((#[trigger] table@[i])@),
{
    let mut i: usize = 0;
    while i < table.len()
        invariant
            i <= table@.len(),
            forall|j: int| 0 <= j < i ==> column_fits((#[trigger] table@[j])@),
        decreases table@.len() - i,
    {
        if !cells_fit(&table[i]) {
            return false;
        }
        i = i + 1;
    }
    true
}

/// The series of the columns of a table of texts.
fn series_of_texts(columns: &Vec<ColumnInfo>, table: Vec<Vec<String>>) -> (series: Vec<Series>)
    requires
        columns@.len() == table@.len(),
        forall|i: int| 0 <= i < table@.len() ==> texts_fit(texts((#[trigger] table@[i])@)),
    ensures
        series@.len() == columns@.len(),
        forall|i: int|
            0 <= i < columns@.len() ==> series_view(#[trigger] series@[i]) == text_view(
                columns@[i].name@,
                texts(table@[i]@),
            ),
{
    let mut series: Vec<Series> = Vec::new();
    let width = columns.len();
    let mut i: usize = 0;
    for column in it: table
        invariant
            it.seq() == table@,
            i == it.index(),
            width == columns@.len(),
            columns@.len() == table@.len(),
            series@.len() == i,
            forall|j: int| 0 <= j < table@.len() ==> texts_fit(texts((#[trigger] table@[j])@)),
            forall|j: int|
                0 <= j < i ==> series_view(#[trigger] series@[j]) == text_view(
                    columns@[j].name@,
                    texts(table@[j]@),
                ),
    {
        series.push(text_series(columns[i].name.as_str(), column));
        i = i + 1;
    }
    series
}

/// The series of the columns of a table of cells.
fn series_of_cells(columns: &Vec<ColumnInfo>, table: Vec<Vec<ColumnData<'_>>>) -> (series: Vec<
    Series,
>)
    requires
        columns@.len() == table@.len(),
        forall|i: int| 0 <= i < table@.len() ==> column_fits((#[trigger] table@[i])@),
    ensures
        series@.len() == columns@.len(),
        forall|i: int|
            0 <= i < columns@.len() ==> typed(
                columns@[i].name@,
                table@[i]@,
                metadata_dtype(false, columns@[i].column_type),
                series_view(#[trigger] series@[i]),
            ),
{
    let mut series: Vec<Series> = Vec::new();
    let width = columns.len();
    let mut i: usize = 0;
    for column in it: table
        invariant
            it.seq() == table@,
            i == it.index(),
            width == columns@.len(),
            columns@.len() == table@.len(),
            series@.len() == i,
            forall|j: int| 0 <= j < table@.len() ==> column_fits((#[trigger] table@[j])@),
            forall|j: int|
                0 <= j < i ==> typed(
                    columns@[j].name@,
                    table@[j]@,
                    metadata_dtype(false, columns@[j].column_type),
                    series_view(#[trigger] series@[j]),
                ),
    {
        let column = TiberiusColumn { name: columns[i].name.clone(), data: column };
        series.push(typed_series(&column, column_dtype(false, columns[i].column_type)));
        i = i + 1;
    }
    series
}

impl<'a> Download<'a> {
    /// Begins a download with the first item of a query stream, which is to be the
    /// metadata of the first result. Where the stream has no items, the result has no
    /// columns.
    ///
    /// With `map2string` every value will become a text.
    pub fn begin(map2string: bool, first: Option<StreamItem<'a>>) -> (download: Result<
        Download<'a>,
        Refusal,
    >)
        ensures
            match DownloadView::begun(map2string, first) {
                Ok(view) => download is Ok && download->Ok_0@ == view && view.wf(),
                Err(refusal) => download == Err::<Download<'a>, Refusal>(refusal),
            },
    {
        let columns = match first {
            Some(StreamItem::Row(_)) => {
                return Err(Refusal::RowBeforeMetadata);
            },
            Some(StreamItem::Metadata { result_index, columns }) => {
                if result_index != 0 {
                    return Err(Refusal::LaterResultFirst);
                }
                columns
            },
            None => Vec::new(),
        };
        let width = columns.len();
        if map2string {
            let mut table: Vec<Vec<String>> = Vec::new();
            let mut i: usize = 0;
            while i < width
                invariant
                    i <= width,
                    table@.len() == i,
                    forall|j: int| 0 <= j < i ==> (#[trigger] table@[j])@ == Seq::<String>::empty(),
                decreases width - i,
            {
                table.push(Vec::new());
                i = i + 1;
            }
            let download = Download { columns, table: Table::Text(table) };
            assert(table@.map_values(|c: Vec<String>| texts(c@)) =~~= empty_table(width as nat));
            Ok(download)
        } else {
            let mut table: Vec<Vec<ColumnData<'a>>> = Vec::new();
            let mut i: usize = 0;
            while i < width
                invariant
                    i <= width,
                    table@.len() == i,
                    forall|j: int|
                        0 <= j < i ==> (#[trigger] table@[j])@ == Seq::<ColumnData<'a>>::empty(),
                decreases width - i,
            {
                table.push(Vec::new());
                i = i + 1;
            }
            let download = Download { columns, table: Table::Typed(table) };
            assert(table@.map_values(|c: Vec<ColumnData<'a>>| c@) =~~= empty_table(width as nat));
            Ok(download)
        }
    }

    /// Takes one more item of the stream. The cells of a row go to the ends of their
    /// columns, as texts where every value is to become one; metadata is passed over.
    /// A row that cannot be taken leaves the download as it was.
    pub fn accept(&mut self, item: StreamItem<'a>) -> (taken: Result<(), Refusal>)
        requires
            old(self)@.wf(),
        ensures
            match old(self)@.accepted(item) {
                Ok(view) => taken is Ok && final(self)@ == view,
                Err(refusal) => taken == Err::<(), Refusal>(refusal) && *final(self) == *old(self),
            },
            final(self)@.wf(),
    {
        let row = match item {
            StreamItem::Metadata { .. } => {
                return Ok(());
            },
            StreamItem::Row(row) => row,
        };
        let width = self.columns.len();
        match &mut self.table {
            Table::Text(table) => {
                match unprintable_row(&row, width) {
                    Some(refusal) => {
                        return Err(refusal);
                    },
                    None => {},
                }
                push_texts(table, row);
                Ok(())
            },
            Table::Typed(table) => {
                if row.len() > width {
                    return Err(Refusal::RowTooWide);
                }
                push_cells(table, row);
                Ok(())
            },
        }
    }

    /// Finishes the download into a data frame, one column for each column of the
    /// result. Each column is one of texts where every value was to become one; else
    /// its data type is that of its cells, or that which the metadata names where no
    /// cell tells.
    pub fn finish(self) -> (done: Result<Downloaded, FinishError>)
        requires
            self@.wf(),
        ensures
            !self@.fits() ==> done is Err && done->Err_0 is Oversized,
            self@.fits() && !self@.makes_frame() ==> done is Err && done->Err_0 is Frame,
            self@.fits() && self@.makes_frame() ==> {
                &&& done is Ok
                &&& self@.finished(frame_columns(done->Ok_0.frame))
                &&& frame_height(done->Ok_0.frame) == done->Ok_0.rows
                &&& done->Ok_0.rows == if self@.columns.len() == 0 {
                    0
                } else {
                    self@.column_len(0)
                }
            },
    {
        let ghost view = self@;
        let columns = self.columns;
        let series = match self.table {
            Table::Text(table) => {
                if !all_texts_fit(&table) {
                    proof {
                        let k = choose|k: int|
                            0 <= k < table@.len() && !texts_fit(texts((#[trigger] table@[k])@));
                        assert(!texts_fit(view.table->Text_0[k]));
                    }
                    return Err(FinishError::Oversized);
                }
                series_of_texts(&columns, table)
            },
            Table::Typed(table) => {
                if !all_cells_fit(&table) {
                    proof {
                        let k = choose|k: int|
                            0 <= k < table@.len() && !column_fits((#[trigger] table@[k])@);
                        assert(!column_fits(view.table->Typed_0[k]));
                    }
                    return Err(FinishError::Oversized);
                }
                series_of_cells(&columns, table)
            },
        };
        proof {
            let views = series@.map_values(|s: Series| series_view(s));
            assert forall|i: int| 0 <= i < views.len() implies view.column_finished(
                i,
                #[trigger] views[i],
            ) by {
                assert(views[i] == series_view(series@[i]));
            }
            finished_columns_match(view, views);
        }
        match frame_of_series(series) {
            Ok(frame) => {
                let shape = frame_shape(&frame);
                Ok(Downloaded { frame, rows: shape.0 })
            },
            Err(error) => Err(FinishError::Frame(error)),
        }
    }
}

} // verus!
