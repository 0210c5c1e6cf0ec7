use lodviz_core::model::a11y::{
    describe_point, generate_chart_description, generate_series_description,
    summarize_data_range, A11yAttrs, A11yConfig,
};
use lodviz_core::model::data::DataPoint;
use lodviz_core::number::float::Float;
use lodviz_core::model::mark::Mark;

fn pt(x: f64, y: f64) -> DataPoint {
    DataPoint::new(Float::from_bits(x.to_bits()), Float::from_bits(y.to_bits()))
}

#[test]
fn test_generate_chart_description_line() {
    let desc = generate_chart_description(Mark::Line, 100, Some("time"), Some("value"));
    assert!(desc.contains("Line chart"));
    assert!(desc.contains("100 data points"));
    assert!(desc.contains("X axis: time"));
    assert!(desc.contains("Y axis: value"));
}

#[test]
fn test_generate_chart_description_scatter_no_labels() {
    let desc = generate_chart_description(Mark::Point, 50, None, None);
    assert!(desc.contains("Scatter chart"));
    assert!(desc.contains("50 data points"));
    assert!(!desc.contains("X axis"));
}

#[test]
fn test_generate_chart_description_exact_text() {
    assert_eq!(
        generate_chart_description(Mark::Line, 100, Some("time"), Some("value")),
        "Line chart with 100 data points. X axis: time. Y axis: value."
    );
    assert_eq!(
        generate_chart_description(Mark::Circle, 0, None, Some("mass")),
        "Bubble chart with 0 data points. Y axis: mass."
    );
    assert_eq!(
        generate_chart_description(Mark::Bar, 7, Some("month"), None),
        "Bar chart with 7 data points. X axis: month."
    );
    assert_eq!(
        generate_chart_description(Mark::Area, 1234567890, None, None),
        "Area chart with 1234567890 data points."
    );
}

#[test]
fn test_a11y_config_default() {
    let config = A11yConfig::default();
    assert!(config.label.is_none());
    assert!(config.description.is_none());
    assert!(!config.live_region);
}

#[test]
fn test_a11y_attrs_fields() {
    let attrs = A11yAttrs {
        role: "img",
        aria_label: String::from("Revenue"),
        description: generate_chart_description(Mark::Bar, 3, None, None),
    };
    assert_eq!(attrs.role, "img");
    assert_eq!(attrs.aria_label, "Revenue");
    assert_eq!(attrs.description, "Bar chart with 3 data points.");
}

#[test]
fn test_summarize_data_range() {
    let data = vec![pt(0.0, 10.0), pt(5.0, 20.0), pt(10.0, 5.0)];
    let summary = summarize_data_range(&data);
    assert!(summary.contains("X range: 0.00 to 10.00"));
    assert!(summary.contains("Y range: 5.00 to 20.00"));
}

#[test]
fn test_summarize_data_range_empty() {
    let summary = summarize_data_range(&[]);
    assert_eq!(summary, "No data points.");
}

#[test]
fn test_describe_point() {
    let point = pt(std::f64::consts::PI, 2.72);
    let desc = describe_point(&point, 2, 10);
    assert!(desc.contains("Point 3 of 10"));
    assert!(desc.contains("x = 3.14"));
    assert!(desc.contains("y = 2.72"));
}

#[test]
fn test_descriptions_exact_text() {
    let data = vec![pt(-1.5, 2.0), pt(f64::NAN, 7.125), pt(3.0, f64::NAN)];
    assert_eq!(summarize_data_range(&data), "X range: -1.50 to 3.00. Y range: 2.00 to 7.12.");
    assert_eq!(describe_point(&data[0], 0, 3), "Point 1 of 3: x = -1.50, y = 2.00");
    assert_eq!(
        generate_series_description("north", &data),
        "Series \"north\" with 3 data points. X range: -1.50 to 3.00. Y range: 2.00 to 7.12."
    );
    assert_eq!(generate_series_description("none", &[]), "Series \"none\" with no data points.");
}
