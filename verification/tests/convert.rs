use lodviz_core::model::convert::{
    to_box_groups, to_grouped_bar, to_histogram_values, to_multi_dataset, to_ohlc,
    to_pie_entries, to_radar_series, to_waterfall_bars, to_xy_dataset, BoxGroup, PieEntry,
    RadarSeries,
};
use lodviz_core::model::csv::{cell_value, row_of_cells};
use lodviz_core::model::data::{DataPoint, OhlcBar, WaterfallKind};
use lodviz_core::model::field_value::{DataRow, DataTable, FieldValue};
use lodviz_core::number::float::Float;

fn fl(x: f64) -> Float {
    Float::from_bits(x.to_bits())
}

fn floats(xs: &[f64]) -> Vec<Float> {
    xs.iter().map(|&x| fl(x)).collect()
}

fn cell(text: &str) -> FieldValue {
    cell_value(text, text.parse::<f64>().ok().map(fl))
}

/// A table from lines of comma-separated cells, the first line being the
/// header.
fn table(lines: &[&str]) -> DataTable {
    let headers: Vec<String> = lines[0].split(',').map(str::to_owned).collect();
    let mut t = DataTable::default();
    for line in &lines[1..] {
        let cells: Vec<FieldValue> = line.split(',').map(cell).collect();
        t.push(row_of_cells(&headers, &cells));
    }
    t
}

#[test]
fn test_cell_value_rules() {
    assert_eq!(cell(""), FieldValue::Null);
    assert_eq!(cell("1.5"), FieldValue::Numeric(fl(1.5)));
    assert_eq!(cell("-3e2"), FieldValue::Numeric(fl(-300.0)));
    assert_eq!(cell("Apple"), FieldValue::Text("Apple".into()));
    assert_eq!(cell_value("", Some(fl(1.0))), FieldValue::Null);
}

#[test]
fn test_row_of_cells_missing_cells_become_null() {
    let headers = vec!["a".to_owned(), "b".to_owned(), "c".to_owned()];
    let row = row_of_cells(&headers, &vec![cell("1.0"), cell("2.0")]);
    assert_eq!(row.get("a"), Some(&FieldValue::Numeric(fl(1.0))));
    assert_eq!(row.get("b"), Some(&FieldValue::Numeric(fl(2.0))));
    assert_eq!(row.get("c"), Some(&FieldValue::Null));
    let long = row_of_cells(&headers, &vec![cell("1"), cell("2"), cell("3"), cell("4")]);
    assert_eq!(long.get("c"), Some(&FieldValue::Numeric(fl(3.0))));
    let twice = row_of_cells(&vec!["k".to_owned(), "k".to_owned()], &vec![cell("x"), cell("y")]);
    assert_eq!(twice.get("k"), Some(&FieldValue::Text("y".into())));
    assert!(row_of_cells(&vec![], &vec![cell("1")]).get("a").is_none());
    let _: DataRow = row;
}

#[test]
fn test_to_xy_and_multi_dataset() {
    let t = table(&["t,a,b", "1,10,100", "2,,200", "x,30,300", "4,40,"]);
    let single = to_xy_dataset(&t, "t", "a", "alpha");
    assert_eq!(single.series.len(), 1);
    assert_eq!(single.series[0].name, "alpha");
    assert_eq!(
        single.series[0].data,
        vec![DataPoint::new(fl(1.0), fl(10.0)), DataPoint::new(fl(4.0), fl(40.0))]
    );
    let multi = to_multi_dataset(&t, "t", &[("a", "Alpha"), ("b", "Beta")]);
    assert_eq!(multi.series.len(), 2);
    assert_eq!(multi.series[0].name, "Alpha");
    assert_eq!(multi.series[1].name, "Beta");
    assert_eq!(multi.series[0].data, single.series[0].data);
    assert_eq!(
        multi.series[1].data,
        vec![DataPoint::new(fl(1.0), fl(100.0)), DataPoint::new(fl(2.0), fl(200.0))]
    );
    assert!(to_multi_dataset(&t, "t", &[]).series.is_empty());
}

#[test]
fn test_to_grouped_bar() {
    let t = table(&["quarter,north,south", "Q1,1,5", "Q2,2,6", "Q1,3,oops"]);
    let bars = to_grouped_bar(&t, "quarter", &[("north", "North"), ("south", "South")]);
    assert_eq!(bars.categories, vec!["Q1", "Q2", "Q1"]);
    assert_eq!(bars.series.len(), 2);
    assert_eq!(bars.series[0].name, "North");
    assert_eq!(bars.series[0].values, floats(&[1.0, 2.0, 3.0]));
    assert_eq!(bars.series[1].name, "South");
    assert_eq!(bars.series[1].values, floats(&[5.0, 6.0]));
}

#[test]
fn test_to_pie_entries() {
    let t = table(&["label,value", "a,1", "b,none", "3,3", "d,4"]);
    assert_eq!(
        to_pie_entries(&t, "label", "value"),
        vec![
            PieEntry { label: "a".into(), value: fl(1.0) },
            PieEntry { label: "d".into(), value: fl(4.0) },
        ]
    );
}

#[test]
fn test_to_box_groups_and_histogram_values() {
    let t = table(&["group,v", "x,1", "y,2", "x,3", "y,n/a", "z,"]);
    assert_eq!(
        to_box_groups(&t, "group", "v"),
        vec![
            BoxGroup { label: "x".into(), data: floats(&[1.0, 3.0]) },
            BoxGroup { label: "y".into(), data: floats(&[2.0]) },
            BoxGroup { label: "z".into(), data: vec![] },
        ]
    );
    assert_eq!(to_histogram_values(&t, "v"), floats(&[1.0, 2.0, 3.0]));
}

#[test]
fn test_to_ohlc() {
    let t = table(&["i,o,h,l,c", "1,10,12,9,11", "2,11,13,,12", "3,12,14,11,13"]);
    assert_eq!(
        to_ohlc(&t, "i", "o", "h", "l", "c"),
        vec![
            OhlcBar::new(fl(1.0), fl(10.0), fl(12.0), fl(9.0), fl(11.0)),
            OhlcBar::new(fl(3.0), fl(12.0), fl(14.0), fl(11.0), fl(13.0)),
        ]
    );
}

#[test]
fn test_to_radar_series() {
    let t = table(&["name,speed,power,range", "A,1,2,3", "7,1,1,1", "B,4,,x"]);
    assert_eq!(
        to_radar_series(&t, "name", &["speed", "power", "range"]),
        vec![
            RadarSeries { name: "A".into(), values: floats(&[1.0, 2.0, 3.0]) },
            RadarSeries { name: "B".into(), values: floats(&[4.0, 0.0, 0.0]) },
        ]
    );
    assert!(to_radar_series(&t, "name", &[]).is_empty());
}

#[test]
fn test_to_waterfall_bars() {
    let t = table(&[
        "label,value,kind",
        "Open,100,start",
        "Sales,20,delta",
        "Costs,-30,anything",
        "Close,0,total",
        "Skipped,1,",
        ",5,delta",
    ]);
    let bars = to_waterfall_bars(&t, "label", "value", "kind");
    let got: Vec<(&str, f64, WaterfallKind)> =
        bars.iter().map(|b| (b.label.as_str(), f64::from_bits(b.value.to_bits()), b.kind)).collect();
    assert_eq!(
        got,
        vec![
            ("Open", 100.0, WaterfallKind::Start),
            ("Sales", 20.0, WaterfallKind::Delta),
            ("Costs", -30.0, WaterfallKind::Delta),
            ("Close", 0.0, WaterfallKind::Total),
        ]
    );
}
