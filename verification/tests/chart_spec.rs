use lodviz_core::model::chart_spec::ChartSpec;
use lodviz_core::model::data::{BarDataset, DataPoint, DataType, Dataset, Series};
use lodviz_core::model::encoding::Field;
use lodviz_core::model::field_value::{DataRow, DataTable, FieldValue};
use lodviz_core::number::float::Float;
use lodviz_core::model::mark::Mark;
use lodviz_core::model::style::ChartConfig;

fn fl(x: f64) -> Float {
    Float::from_bits(x.to_bits())
}

fn sample_points() -> Vec<DataPoint> {
    vec![
        DataPoint::new(fl(0.0), fl(1.0)),
        DataPoint::new(fl(1.0), fl(3.0)),
        DataPoint::new(fl(2.0), fl(2.0)),
    ]
}

#[test]
fn test_builder_all_required() {
    let spec = ChartSpec::builder()
        .data_points(sample_points())
        .mark(Mark::Line)
        .x(Field::temporal("time"))
        .build();

    assert_eq!(spec.mark, Mark::Line);
    assert_eq!(spec.x.name, "time");
    assert_eq!(spec.x.data_type, DataType::Temporal);

    let ds = spec.data.as_dataset().expect("expected TimeSeries");
    assert_eq!(ds.series.len(), 1);
    assert_eq!(ds.series[0].data.len(), 3);

    assert!(spec.y.is_none());
    assert!(spec.color.is_none());
    assert!(spec.size.is_none());
}

#[test]
fn test_builder_with_optionals() {
    let spec = ChartSpec::builder()
        .data_points(sample_points())
        .mark(Mark::Point)
        .x(Field::quantitative("x"))
        .y(Field::quantitative("y"))
        .color(Field::nominal("category"))
        .size(Field::quantitative("magnitude"))
        .title("My Chart")
        .grid(true)
        .build();

    assert_eq!(spec.y.as_ref().unwrap().name, "y");
    assert_eq!(spec.color.as_ref().unwrap().name, "category");
    assert_eq!(spec.size.as_ref().unwrap().name, "magnitude");
    assert_eq!(spec.config.title.as_deref(), Some("My Chart"));
    assert!(spec.config.grid.as_ref().unwrap().show_x);
}

#[test]
fn test_builder_any_order() {
    // mark -> x -> data
    let spec1 = ChartSpec::builder()
        .mark(Mark::Bar)
        .x(Field::nominal("category"))
        .data_points(sample_points())
        .build();

    // x -> data -> mark
    let spec2 = ChartSpec::builder()
        .x(Field::nominal("category"))
        .data_points(sample_points())
        .mark(Mark::Bar)
        .build();

    assert_eq!(spec1.mark, spec2.mark);
    assert_eq!(spec1.x.name, spec2.x.name);
}

#[test]
fn test_data_points_convenience() {
    let points = sample_points();
    let spec = ChartSpec::builder()
        .data_points(points.clone())
        .mark(Mark::Line)
        .x(Field::quantitative("x"))
        .build();

    let ds = spec.data.as_dataset().unwrap();
    assert_eq!(ds.series.len(), 1);
    assert_eq!(ds.series[0].name, "default");
    assert_eq!(ds.series[0].data.len(), points.len());
}

#[test]
fn test_data_dataset_direct() {
    let mut dataset = Dataset::new();
    dataset.add_series(Series::new("s1", sample_points()));
    dataset.add_series(Series::new("s2", sample_points()));

    let spec =
        ChartSpec::builder().data(dataset).mark(Mark::Line).x(Field::temporal("time")).build();

    assert_eq!(spec.data.as_dataset().unwrap().series.len(), 2);
}

#[test]
fn test_default_config() {
    let spec = ChartSpec::builder()
        .data_points(sample_points())
        .mark(Mark::Line)
        .x(Field::quantitative("x"))
        .build();

    assert!(spec.config.title.is_none());
    assert!(spec.config.grid.is_none());
}

#[test]
fn test_from_table_stores_table() {
    let mut table = DataTable::default();
    let mut row = DataRow::new();
    row.insert("x".into(), FieldValue::Numeric(fl(1.0)));
    row.insert("y".into(), FieldValue::Numeric(fl(2.0)));
    table.push(row);

    let spec = ChartSpec::builder()
        .from_table(table)
        .mark(Mark::Line)
        .x(Field::temporal("x"))
        .y(Field::quantitative("y"))
        .build();

    assert!(spec.data.as_table().is_some());
    assert_eq!(spec.data.as_table().unwrap().len(), 1);
}

#[test]
fn test_bar_data_categorical() {
    let mut bd = BarDataset::new(vec!["Q1".into(), "Q2".into()]);
    bd.add_series("Revenue", vec![fl(100.0), fl(150.0)]);

    let spec =
        ChartSpec::builder().bar_data(bd).mark(Mark::Bar).x(Field::nominal("period")).build();

    assert!(spec.data.as_bar_dataset().is_some());
    assert_eq!(spec.data.as_bar_dataset().unwrap().series.len(), 1);
}

#[test]
fn test_chart_data_accessors_are_exclusive() {
    let spec = ChartSpec::builder()
        .mark(Mark::Area)
        .data_points(sample_points())
        .x(Field::quantitative("x"))
        .config(ChartConfig::new().with_size(640, 480))
        .grid(false)
        .build();
    assert!(spec.data.as_dataset().is_some());
    assert!(spec.data.as_bar_dataset().is_none());
    assert!(spec.data.as_table().is_none());
    assert_eq!(spec.config.width, Some(640));
    assert_eq!(spec.config.height, Some(480));
    let grid = spec.config.grid.unwrap();
    assert!(!grid.show_x && !grid.show_y);
    assert_eq!(grid.color, "#e0e0e0");
}
