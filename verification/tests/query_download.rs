use dlpq::column::{ColumnData, DateTime};
use dlpq::download::{Download, Downloaded, FinishError, Refusal, StreamItem};
use dlpq::metadata::{ColumnInfo, ColumnType};
use polars::prelude::{AnyValue, DataFrame, DataType, Series};
use std::borrow::Cow;

fn info(name: &str, column_type: ColumnType) -> ColumnInfo {
    ColumnInfo { name: String::from(name), column_type }
}

fn metadata(columns: Vec<ColumnInfo>) -> StreamItem<'static> {
    StreamItem::Metadata { result_index: 0, columns }
}

fn text(s: &'static str) -> ColumnData<'static> {
    ColumnData::String(Some(Cow::Borrowed(s)))
}

fn people() -> Vec<StreamItem<'static>> {
    vec![
        metadata(vec![
            info("id", ColumnType::Int4),
            info("name", ColumnType::NVarchar),
            info("born", ColumnType::Daten),
        ]),
        StreamItem::Row(vec![ColumnData::I32(Some(1)), text("Ada"), ColumnData::Date(Some(662892))]),
        StreamItem::Row(vec![ColumnData::I32(Some(2)), ColumnData::String(None), ColumnData::Date(None)]),
        StreamItem::Row(vec![ColumnData::I32(None), text("Alan"), ColumnData::Date(Some(698151))]),
    ]
}

fn collect(map2string: bool, items: Vec<StreamItem<'static>>) -> Result<Download<'static>, Refusal> {
    let mut items = items.into_iter();
    let mut download = Download::begin(map2string, items.next())?;
    for item in items {
        download.accept(item)?;
    }
    Ok(download)
}

fn run(map2string: bool, items: Vec<StreamItem<'static>>) -> Downloaded {
    let download = match collect(map2string, items) {
        Ok(download) => download,
        Err(refusal) => panic!("{}", refusal.message()),
    };
    match download.finish() {
        Ok(done) => done,
        Err(FinishError::Oversized) => panic!("oversized"),
        Err(FinishError::Frame(error)) => panic!("{}", error),
    }
}

fn refused(map2string: bool, items: Vec<StreamItem<'static>>) -> Refusal {
    match collect(map2string, items) {
        Ok(_) => panic!("not refused"),
        Err(refusal) => refusal,
    }
}

fn series(frame: &DataFrame, name: &str) -> Series {
    frame.column(name).unwrap().as_materialized_series().clone()
}

#[test]
fn values_keep_their_types() {
    let done = run(false, people());
    assert_eq!(done.rows, 3);
    assert_eq!(done.frame.shape(), (3, 3));
    let names: Vec<&str> = done.frame.get_column_names().iter().map(|n| n.as_str()).collect();
    assert_eq!(names, vec!["id", "name", "born"]);
    let id = series(&done.frame, "id");
    assert_eq!(id.dtype(), &DataType::Int32);
    assert_eq!(id.i32().unwrap().get(0), Some(1));
    assert_eq!(id.i32().unwrap().get(1), Some(2));
    assert_eq!(id.i32().unwrap().get(2), None);
    let name = series(&done.frame, "name");
    assert_eq!(name.dtype(), &DataType::String);
    assert_eq!(name.str().unwrap().get(0), Some("Ada"));
    assert_eq!(name.str().unwrap().get(1), None);
    assert_eq!(name.str().unwrap().get(2), Some("Alan"));
}

#[test]
fn dates_have_a_text_but_no_typed_counterpart() {
    let done = run(false, people());
    let born = series(&done.frame, "born");
    assert_eq!(born.dtype(), &DataType::Date);
    assert_eq!(born.null_count(), 3);
}

#[test]
fn small_and_tiny_integers_are_kept() {
    let done = run(false, vec![
        metadata(vec![
            info("small", ColumnType::Int2),
            info("tiny", ColumnType::Int1),
            info("wide", ColumnType::Int1),
        ]),
        StreamItem::Row(vec![
            ColumnData::I16(Some(7)),
            ColumnData::U8(Some(100)),
            ColumnData::U8(Some(200)),
        ]),
        StreamItem::Row(vec![ColumnData::I16(None), ColumnData::U8(None), ColumnData::U8(Some(1))]),
    ]);
    let small = series(&done.frame, "small");
    assert_eq!(small.dtype(), &DataType::Int16);
    assert_eq!(small.get(0).unwrap(), AnyValue::Int16(7));
    assert_eq!(small.get(1).unwrap(), AnyValue::Null);
    let tiny = series(&done.frame, "tiny");
    assert_eq!(tiny.dtype(), &DataType::Int8);
    assert_eq!(tiny.get(0).unwrap(), AnyValue::Int8(100));
    assert_eq!(tiny.get(1).unwrap(), AnyValue::Null);
    let wide = series(&done.frame, "wide");
    assert_eq!(wide.dtype(), &DataType::Int16);
    assert_eq!(wide.get(0).unwrap(), AnyValue::Int16(200));
    assert_eq!(wide.get(1).unwrap(), AnyValue::Int16(1));
}

#[test]
fn empty_texts_stand_for_nulls() {
    let items = || {
        vec![
            metadata(vec![
                info("tiny", ColumnType::Int1),
                info("small", ColumnType::Int2),
                info("int", ColumnType::Int4),
                info("big", ColumnType::Int8),
                info("real", ColumnType::Float4),
                info("float", ColumnType::Float8),
                info("bit", ColumnType::Bit),
            ]),
            StreamItem::Row(vec![
                ColumnData::U8(Some(0)),
                ColumnData::I16(Some(0)),
                ColumnData::I32(Some(0)),
                ColumnData::I64(Some(0)),
                ColumnData::F32(Some(0)),
                ColumnData::F64(Some(0)),
                ColumnData::Bit(Some(false)),
            ]),
            StreamItem::Row(vec![
                ColumnData::U8(None),
                ColumnData::I16(None),
                ColumnData::I32(None),
                ColumnData::I64(None),
                ColumnData::F32(None),
                ColumnData::F64(None),
                ColumnData::Bit(None),
            ]),
        ]
    };
    let texts = run(true, items());
    let typed = run(false, items());
    assert_eq!(texts.frame.shape(), typed.frame.shape());
    assert_eq!(texts.frame.get_column_names(), typed.frame.get_column_names());
    for name in typed.frame.get_column_names() {
        let a = series(&texts.frame, name.as_str());
        let b = series(&typed.frame, name.as_str());
        for r in 0..2 {
            let empty = a.str().unwrap().get(r) == Some("");
            assert_eq!(empty, b.get(r).unwrap().is_null());
            assert_eq!(empty, r == 1);
        }
    }
}

#[test]
fn values_become_texts() {
    let done = run(true, people());
    assert_eq!(done.rows, 3);
    for (name, expected) in [
        ("id", ["1", "2", ""]),
        ("name", ["Ada", "", "Alan"]),
        ("born", ["1815-12-10", "", "1912-06-23"]),
    ] {
        let column = series(&done.frame, name);
        assert_eq!(column.dtype(), &DataType::String);
        assert_eq!(column.null_count(), 0);
        for r in 0..3 {
            assert_eq!(column.str().unwrap().get(r), Some(expected[r]));
        }
    }
}

#[test]
fn columns_of_nothing_but_null_follow_the_metadata() {
    let columns = vec![
        info("tiny", ColumnType::Int1),
        info("small", ColumnType::Int2),
        info("int", ColumnType::Int4),
        info("real", ColumnType::Float4),
        info("other", ColumnType::Xml),
    ];
    let row = || {
        StreamItem::Row(vec![
            ColumnData::U8(None),
            ColumnData::I16(None),
            ColumnData::I32(None),
            ColumnData::F32(None),
            ColumnData::Xml,
        ])
    };
    let done = run(false, vec![metadata(columns), row(), row()]);
    assert_eq!(series(&done.frame, "tiny").dtype(), &DataType::Int8);
    assert_eq!(series(&done.frame, "small").dtype(), &DataType::Int16);
    assert_eq!(series(&done.frame, "int").dtype(), &DataType::Int32);
    assert_eq!(series(&done.frame, "real").dtype(), &DataType::Float32);
    assert_eq!(series(&done.frame, "other").dtype(), &DataType::Null);
    assert_eq!(done.rows, 2);
}

#[test]
fn result_without_rows() {
    let columns = || vec![info("a", ColumnType::Int8), info("b", ColumnType::Bit)];
    let done = run(false, vec![metadata(columns())]);
    assert_eq!(done.frame.shape(), (0, 2));
    assert_eq!(series(&done.frame, "a").dtype(), &DataType::Int64);
    assert_eq!(series(&done.frame, "b").dtype(), &DataType::Boolean);
    let done = run(true, vec![metadata(columns())]);
    assert_eq!(done.rows, 0);
    assert_eq!(series(&done.frame, "a").dtype(), &DataType::String);
}

#[test]
fn stream_without_items() {
    for map2string in [false, true] {
        let done = run(map2string, vec![]);
        assert_eq!(done.frame.shape(), (0, 0));
        assert_eq!(done.rows, 0);
    }
}

#[test]
fn later_metadata_is_passed_over() {
    let mut items = people();
    items.push(StreamItem::Metadata { result_index: 1, columns: vec![info("x", ColumnType::Bit)] });
    items.push(StreamItem::Row(vec![ColumnData::I32(Some(4)), text("Grace"), ColumnData::Date(None)]));
    let done = run(false, items);
    assert_eq!(done.frame.shape(), (4, 3));
    assert_eq!(series(&done.frame, "name").str().unwrap().get(3), Some("Grace"));
}

#[test]
fn first_item_must_be_the_metadata() {
    for map2string in [false, true] {
        let refusal = refused(map2string, vec![StreamItem::Row(vec![])]);
        assert!(refusal == Refusal::RowBeforeMetadata);
        assert_eq!(refusal.message(), "Expected first item to be the column metadata.");
        let later = StreamItem::Metadata { result_index: 1, columns: vec![] };
        let refusal = refused(map2string, vec![later]);
        assert!(refusal == Refusal::LaterResultFirst);
        assert_eq!(
            refusal.message(),
            "Expected first item to be the column metadata with meta.result_index() == 0"
        );
    }
}

#[test]
fn wide_rows_are_refused() {
    for map2string in [false, true] {
        let mut items = people();
        items.push(StreamItem::Row(vec![
            ColumnData::I32(Some(4)),
            text("x"),
            ColumnData::Date(None),
            ColumnData::I32(Some(5)),
        ]));
        let refusal = refused(map2string, items);
        assert!(refusal == Refusal::RowTooWide);
        assert_eq!(refusal.message(), "A row has more cells than the result has columns.");
    }
}

#[test]
fn impossible_dates_are_refused_as_texts_only() {
    let items = || {
        vec![
            metadata(vec![info("at", ColumnType::Datetime)]),
            StreamItem::Row(vec![ColumnData::DateTime(Some(DateTime {
                days: i32::MAX,
                seconds_fragments: 0,
            }))]),
        ]
    };
    let refusal = refused(true, items());
    assert!(refusal == Refusal::DateOutOfRange);
    assert_eq!(refusal.message(), "A date lies outside the calendar.");
    assert_eq!(run(false, items()).rows, 1);
}

#[test]
fn first_offending_cell_decides() {
    let bad = || ColumnData::Date(Some(u32::MAX));
    let columns = || metadata(vec![info("a", ColumnType::Daten)]);
    let items = vec![columns(), StreamItem::Row(vec![ColumnData::Date(None), bad()])];
    assert!(refused(true, items) == Refusal::DateOutOfRange);
    let cells = vec![ColumnData::Date(None), ColumnData::Date(None), bad()];
    assert!(refused(true, vec![columns(), StreamItem::Row(cells)]) == Refusal::RowTooWide);
}

#[test]
fn refused_row_leaves_the_download_as_it_was() {
    let mut download = collect(true, people()).ok().unwrap();
    let wide = vec![text("a"), text("b"), text("c"), text("d")];
    assert!(download.accept(StreamItem::Row(wide)).is_err());
    assert_eq!(download.finish().ok().unwrap().rows, 3);
}

#[test]
fn equal_names_do_not_make_a_table() {
    let items = vec![metadata(vec![info("a", ColumnType::Int4), info("a", ColumnType::Int4)])];
    let download = collect(false, items).ok().unwrap();
    assert!(matches!(download.finish(), Err(FinishError::Frame(_))));
}

#[test]
fn short_rows_do_not_make_a_table() {
    for map2string in [false, true] {
        let items = vec![
            metadata(vec![info("a", ColumnType::Int4), info("b", ColumnType::Int4)]),
            StreamItem::Row(vec![ColumnData::I32(Some(1))]),
        ];
        let download = collect(map2string, items).ok().unwrap();
        assert!(matches!(download.finish(), Err(FinishError::Frame(_))));
    }
}
