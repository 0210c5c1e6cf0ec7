//! Conversions of tables into the data of the single chart types.

use crate::model::data::{
    BarDataset, DataPoint, Dataset, OhlcBar, Series, WaterfallBar, WaterfallKind,
};
use crate::model::field_value::{
    cell_at, cell_of, group_keys, is_grouping, numbers_of, rows_with_key, texts_of, xy_points,
    CellModel, DataTable, FieldValue, RowModel,
};
use crate::number::float::{Float, ZERO_BITS};
use crate::number::text::names;
use vstd::prelude::*;

verus! {

/// One slice of a pie chart.
#[derive(Debug, Clone, PartialEq)]
pub struct PieEntry {
    pub label: String,
    pub value: Float,
}

/// The values of one group of a box plot or a violin chart.
#[derive(Debug, Clone, PartialEq)]
pub struct BoxGroup {
    pub label: String,
    pub data: Vec<Float>,
}

/// One series of a radar chart: a value for each axis.
#[derive(Debug, Clone, PartialEq)]
pub struct RadarSeries {
    pub name: String,
    pub values: Vec<Float>,
}

/// The number in column `col` of a row, if it has one.
pub open spec fn number_at(row: RowModel, col: Seq<char>) -> Option<Float> {
    match cell_of(row, col) {
        Some(cell) => cell.number(),
        None => None,
    }
}

/// The text in column `col` of a row, if it has one.
pub open spec fn text_at(row: RowModel, col: Seq<char>) -> Option<Seq<char>> {
    match cell_of(row, col) {
        Some(cell) => cell.text(),
        None => None,
    }
}

fn number_in(row: &crate::model::field_value::DataRow, col: &str) -> (r: Option<Float>)
    ensures
        r == number_at(row@, col@),
{
    match cell_at(row, col) {
        Some(cell) => cell.as_f64(),
        None => None,
    }
}

fn text_in<'a>(row: &'a crate::model::field_value::DataRow, col: &str) -> (r: Option<&'a str>)
    ensures
        r.is_some() == text_at(row@, col@).is_some(),
        r.is_some() ==> r.unwrap()@ == text_at(row@, col@).unwrap(),
{
    match cell_at(row, col) {
        Some(cell) => cell.as_str(),
        None => None,
    }
}

/// The table as one series called `name`, of the points of the rows that
/// have a number in both columns.
pub fn to_xy_dataset(table: &DataTable, x_col: &str, y_col: &str, name: &str) -> (r: Dataset)
    ensures
        r.series@.len() == 1,
        r.series@[0].name@ == name@,
        r.series@[0].data@ == xy_points(table@, x_col@, y_col@),
        r.series@[0].visible,
{
    Dataset::from_series(Series::new(name, table.extract_xy(x_col, y_col)))
}

/// The table as one series for each pair of a `y` column and a name, all
/// over the same `x` column.
pub fn to_multi_dataset(table: &DataTable, x_col: &str, series_names: &[(&str, &str)]) -> (r:
    Dataset)
    ensures
        r.series@.len() == series_names@.len(),
        forall|k: int|
            0 <= k < series_names@.len() ==> {
                &&& (#[trigger] r.series@[k]).name@ == series_names@[k].1@
                &&& r.series@[k].data@ == xy_points(table@, x_col@, series_names@[k].0@)
                &&& r.series@[k].visible
            },
{
    let mut dataset = Dataset::new();
    let n = series_names.len();
    let mut i: usize = 0;
    while i < n
        invariant
            i <= n,
            n == series_names@.len(),
            dataset.series@.len() == i,
            forall|k: int|
                0 <= k < i ==> {
                    &&& (#[trigger] dataset.series@[k]).name@ == series_names@[k].1@
                    &&& dataset.series@[k].data@ == xy_points(table@, x_col@, series_names@[k].0@)
                    &&& dataset.series@[k].visible
                },
        decreases n - i,
    {
        let points = table.extract_xy(x_col, series_names[i].0);
        dataset.add_series(Series::new(series_names[i].1, points));
        i += 1;
    }
    dataset
}

/// The table in wide format as bars: the texts of the category column as
/// categories, and one series for each pair of a value column and a name.
pub fn to_grouped_bar(table: &DataTable, cat_col: &str, series_cols: &[(&str, &str)]) -> (r:
    BarDataset)
    ensures
        names(r.categories@) == texts_of(table@, cat_col@),
        r.series@.len() == series_cols@.len(),
        forall|k: int|
            0 <= k < series_cols@.len() ==> {
                &&& (#[trigger] r.series@[k]).name@ == series_cols@[k].1@
                &&& r.series@[k].values@ == numbers_of(table@, series_cols@[k].0@)
            },
{
    let mut dataset = BarDataset::new(table.extract_text(cat_col));
    let n = series_cols.len();
    let mut i: usize = 0;
    while i < n
        invariant
            i <= n,
            n == series_cols@.len(),
            names(dataset.categories@) == texts_of(table@, cat_col@),
            dataset.series@.len() == i,
            forall|k: int|
                0 <= k < i ==> {
                    &&& (#[trigger] dataset.series@[k]).name@ == series_cols@[k].1@
                    &&& dataset.series@[k].values@ == numbers_of(table@, series_cols@[k].0@)
                },
        decreases n - i,
    {
        let values = table.extract_numeric(series_cols[i].0);
        dataset.add_series(series_cols[i].1, values);
        assert forall|k: int| 0 <= k < i + 1 implies {
            &&& (#[trigger] dataset.series@[k]).name@ == series_cols@[k].1@
            &&& dataset.series@[k].values@ == numbers_of(table@, series_cols@[k].0@)
        } by {
            if k < i {
                assert(dataset.series@[k] == dataset.series@.drop_last()[k]);
            }
        }
        i += 1;
    }
    dataset
}

/// The label and the value of each row that has a text in the label column
/// and a number in the value column, in row order.
pub open spec fn pie_entries(rows: Seq<RowModel>, label_col: Seq<char>, value_col: Seq<char>) -> Seq<
    (Seq<char>, Float),
>
    decreases rows.len(),
{
    if rows.len() == 0 {
        Seq::empty()
    } else {
        let front = pie_entries(rows.drop_last(), label_col, value_col);
        match (text_at(rows.last(), label_col), number_at(rows.last(), value_col)) {
            (Some(label), Some(value)) => front.push((label, value)),
            _ => front,
        }
    }
}

/// What a list of pie entries holds.
pub open spec fn pie_models(entries: Seq<PieEntry>) -> Seq<(Seq<char>, Float)> {
    entries.map_values(|e: PieEntry| (e.label@, e.value))
}

/// The slices of a pie chart: one for each row that has a text in the label
/// column and a number in the value column.
pub fn to_pie_entries(table: &DataTable, label_col: &str, value_col: &str) -> (r: Vec<PieEntry>)
    ensures
        pie_models(r@) == pie_entries(table@, label_col@, value_col@),
{
    let rows = table.rows();
    let n = rows.len();
    let mut out: Vec<PieEntry> = Vec::new();
    let mut i: usize = 0;
    while i < n
        invariant
            i <= n,
            n == rows@.len(),
            table@.len() == n,
            forall|k: int| 0 <= k < n ==> table@[k] == (#[trigger] rows@[k])@,
            pie_models(out@) == pie_entries(table@.take(i as int), label_col@, value_col@),
        decreases n - i,
    {
        assert(table@.take(i + 1).drop_last() =~= table@.take(i as int));
        assert(table@.take(i + 1).last() == rows@[i as int]@);
        if let Some(label) = text_in(&rows[i], label_col) {
            if let Some(value) = number_in(&rows[i], value_col) {
                let ghost before = out@;
                let entry = PieEntry { label: label.to_owned(), value };
                out.push(entry);
                assert(pie_models(out@) =~= pie_models(before).push((entry.label@, entry.value)));
            }
        }
        i += 1;
    }
    assert(table@.take(n as int) =~= table@);
    out
}

/// The groups of a box plot: the rows grouped by the group column, each
/// group with the numbers of its value column.
pub fn to_box_groups(table: &DataTable, group_col: &str, value_col: &str) -> (r: Vec<BoxGroup>)
    ensures
        r@.len() == group_keys(table@, group_col@).len(),
        forall|g: int|
            0 <= g < r@.len() ==> {
                &&& (#[trigger] r@[g]).label@ == group_keys(table@, group_col@)[g]
                &&& r@[g].data@ == numbers_of(
                    rows_with_key(table@, group_col@, group_keys(table@, group_col@)[g]),
                    value_col@,
                )
            },
{
    let groups = table.group_by(group_col);
    let m = groups.len();
    let mut out: Vec<BoxGroup> = Vec::new();
    let mut g: usize = 0;
    while g < m
        invariant
            g <= m,
            m == groups@.len(),
            is_grouping(table@, group_col@, groups@),
            out@.len() == g,
            forall|k: int|
                0 <= k < g ==> {
                    &&& (#[trigger] out@[k]).label@ == group_keys(table@, group_col@)[k]
                    &&& out@[k].data@ == numbers_of(
                        rows_with_key(table@, group_col@, group_keys(table@, group_col@)[k]),
                        value_col@,
                    )
                },
        decreases m - g,
    {
        let data = groups[g].1.extract_numeric(value_col);
        out.push(BoxGroup { label: groups[g].0.clone(), data });
        g += 1;
    }
    out
}

/// The values of a histogram: the numbers of column `col`.
pub fn to_histogram_values(table: &DataTable, col: &str) -> (r: Vec<Float>)
    ensures
        r@ == numbers_of(table@, col@),
{
    table.extract_numeric(col)
}

/// The candlestick of each row that has a number in all five columns, in row
/// order.
pub open spec fn ohlc_bars(
    rows: Seq<RowModel>,
    idx_col: Seq<char>,
    open_col: Seq<char>,
    high_col: Seq<char>,
    low_col: Seq<char>,
    close_col: Seq<char>,
) -> Seq<OhlcBar>
    decreases rows.len(),
{
    if rows.len() == 0 {
        Seq::empty()
    } else {
        let front = ohlc_bars(rows.drop_last(), idx_col, open_col, high_col, low_col, close_col);
        let row = rows.last();
        match (
            number_at(row, idx_col),
            number_at(row, open_col),
            number_at(row, high_col),
            number_at(row, low_col),
            number_at(row, close_col),
        ) {
            (Some(timestamp), Some(open), Some(high), Some(low), Some(close)) => front.push(
                OhlcBar { timestamp, open, high, low, close },
            ),
            _ => front,
        }
    }
}

/// The candlesticks of a table: one for each row that has a number in all
/// five columns.
pub fn to_ohlc(
    table: &DataTable,
    idx_col: &str,
    open_col: &str,
    high_col: &str,
    low_col: &str,
    close_col: &str,
) -> (r: Vec<OhlcBar>)
    ensures
        r@ == ohlc_bars(table@, idx_col@, open_col@, high_col@, low_col@, close_col@),
{
    let rows = table.rows();
    let n = rows.len();
    let mut out: Vec<OhlcBar> = Vec::new();
    let mut i: usize = 0;
    while i < n
        invariant
            i <= n,
            n == rows@.len(),
            table@.len() == n,
            forall|k: int| 0 <= k < n ==> table@[k] == (#[trigger] rows@[k])@,
            out@ == ohlc_bars(
                table@.take(i as int),
                idx_col@,
                open_col@,
                high_col@,
                low_col@,
                close_col@,
            ),
        decreases n - i,
    {
        assert(table@.take(i + 1).drop_last() =~= table@.take(i as int));
        assert(table@.take(i + 1).last() == rows@[i as int]@);
        let row = &rows[i];
        if let Some(idx) = number_in(row, idx_col) {
            if let Some(open) = number_in(row, open_col) {
                if let Some(high) = number_in(row, high_col) {
                    if let Some(low) = number_in(row, low_col) {
                        if let Some(close) = number_in(row, close_col) {
                            out.push(OhlcBar::new(idx, open, high, low, close));
                        }
                    }
                }
            }
        }
        i += 1;
    }
    assert(table@.take(n as int) =~= table@);
    out
}

/// The value of a row on each axis: its number in the column of the axis,
/// and zero where it has none.
pub open spec fn axis_values(row: RowModel, axis_cols: Seq<&str>) -> Seq<Float> {
    axis_cols.map_values(
        |col: &str|
            match number_at(row, col@) {
                Some(v) => v,
                None => Float::from_bits(ZERO_BITS),
            },
    )
}

/// The name and the axis values of each row that has a text in the name
/// column, in row order; none where there are no axes.
pub open spec fn radar_series(rows: Seq<RowModel>, name_col: Seq<char>, axis_cols: Seq<&str>) -> Seq<
    (Seq<char>, Seq<Float>),
>
    decreases rows.len(),
{
    if rows.len() == 0 {
        Seq::empty()
    } else {
        let front = radar_series(rows.drop_last(), name_col, axis_cols);
        match text_at(rows.last(), name_col) {
            Some(name) => if axis_cols.len() == 0 {
                front
            } else {
                front.push((name, axis_values(rows.last(), axis_cols)))
            },
            None => front,
        }
    }
}

/// What a list of radar series holds.
pub open spec fn radar_models(series: Seq<RadarSeries>) -> Seq<(Seq<char>, Seq<Float>)> {
    series.map_values(|s: RadarSeries| (s.name@, s.values@))
}

/// The series of a radar chart from a table in wide format: one for each row
/// that has a text in the name column, with its number on each axis.
pub fn to_radar_series(table: &DataTable, name_col: &str, axis_cols: &[&str]) -> (r: Vec<
    RadarSeries,
>)
    ensures
        radar_models(r@) == radar_series(table@, name_col@, axis_cols@),
{
    let rows = table.rows();
    let n = rows.len();
    let m = axis_cols.len();
    let mut out: Vec<RadarSeries> = Vec::new();
    let mut i: usize = 0;
    while i < n
        invariant
            i <= n,
            n == rows@.len(),
            m == axis_cols@.len(),
            table@.len() == n,
            forall|k: int| 0 <= k < n ==> table@[k] == (#[trigger] rows@[k])@,
            radar_models(out@) == radar_series(table@.take(i as int), name_col@, axis_cols@),
        decreases n - i,
    {
        assert(table@.take(i + 1).drop_last() =~= table@.take(i as int));
        assert(table@.take(i + 1).last() == rows@[i as int]@);
        let row = &rows[i];
        if let Some(name) = text_in(row, name_col) {
            let mut values: Vec<Float> = Vec::new();
            let mut a: usize = 0;
            while a < m
                invariant
                    a <= m,
                    m == axis_cols@.len(),
                    values@.len() == a,
                    forall|k: int| 0 <= k < a ==> values@[k] == axis_values(row@, axis_cols@)[k],
                decreases m - a,
            {
                let value = match number_in(row, axis_cols[a]) {
                    Some(v) => v,
                    None => Float::from_bits(ZERO_BITS),
                };
                values.push(value);
                a += 1;
            }
            assert(values@ =~= axis_values(row@, axis_cols@));
            if m > 0 {
                let ghost before = out@;
                let series = RadarSeries { name: name.to_owned(), values };
                out.push(series);
                assert(radar_models(out@) =~= radar_models(before).push((series.name@, series.values@)));
            }
        }
        i += 1;
    }
    assert(table@.take(n as int) =~= table@);
    out
}

/// The kind of waterfall bar that a text names: `start`, `total`, and a
/// delta for any other text.
pub open spec fn kind_named(text: Seq<char>) -> WaterfallKind {
    if text == "start"@ {
        WaterfallKind::Start
    } else if text == "total"@ {
        WaterfallKind::Total
    } else {
        WaterfallKind::Delta
    }
}

/// The label, value and kind of each row that has a text in the label
/// column, a number in the value column and a text in the kind column, in
/// row order.
pub open spec fn waterfall_bars(
    rows: Seq<RowModel>,
    label_col: Seq<char>,
    value_col: Seq<char>,
    kind_col: Seq<char>,
) -> Seq<(Seq<char>, Float, WaterfallKind)>
    decreases rows.len(),
{
    if rows.len() == 0 {
        Seq::empty()
    } else {
        let front = waterfall_bars(rows.drop_last(), label_col, value_col, kind_col);
        let row = rows.last();
        match (text_at(row, label_col), number_at(row, value_col), text_at(row, kind_col)) {
            (Some(label), Some(value), Some(kind)) => front.push((label, value, kind_named(kind))),
            _ => front,
        }
    }
}

/// What a list of waterfall bars holds.
pub open spec fn waterfall_models(bars: Seq<WaterfallBar>) -> Seq<(Seq<char>, Float, WaterfallKind)> {
    bars.map_values(|b: WaterfallBar| (b.label@, b.value, b.kind))
}

/// The bars of a waterfall chart: one for each row that has a text in the
/// label column, a number in the value column and a text in the kind column.
/// The kind is `start`, `total`, or a delta for any other text.
pub fn to_waterfall_bars(table: &DataTable, label_col: &str, value_col: &str, kind_col: &str) -> (r:
    Vec<WaterfallBar>)
    ensures
        waterfall_models(r@) == waterfall_bars(table@, label_col@, value_col@, kind_col@),
{
    let rows = table.rows();
    let n = rows.len();
    let mut out: Vec<WaterfallBar> = Vec::new();
    let mut i: usize = 0;
    while i < n
        invariant
            i <= n,
            n == rows@.len(),
            table@.len() == n,
            forall|k: int| 0 <= k < n ==> table@[k] == (#[trigger] rows@[k])@,
            waterfall_models(out@) == waterfall_bars(
                table@.take(i as int),
                label_col@,
                value_col@,
                kind_col@,
            ),
        decreases n - i,
    {
        assert(table@.take(i + 1).drop_last() =~= table@.take(i as int));
        assert(table@.take(i + 1).last() == rows@[i as int]@);
        let row = &rows[i];
        if let Some(label) = text_in(row, label_col) {
            if let Some(value) = number_in(row, value_col) {
                if let Some(kind_text) = text_in(row, kind_col) {
                    let owned = kind_text.to_owned();
                    let kind = if owned == "start".to_owned() {
                        WaterfallKind::Start
                    } else if owned == "total".to_owned() {
                        WaterfallKind::Total
                    } else {
                        WaterfallKind::Delta
                    };
                    let ghost before = out@;
                    let bar = WaterfallBar { label: label.to_owned(), value, kind };
                    out.push(bar);
                    assert(waterfall_models(out@) =~= waterfall_models(before).push(
                        (bar.label@, bar.value, bar.kind),
                    ));
                }
            }
        }
        i += 1;
    }
    assert(table@.take(n as int) =~= table@);
    out
}

} // verus!
