use lodviz_core::model::data::DataPoint;
use lodviz_core::model::encoding::{Encoding, Field};
use lodviz_core::model::field_value::{DataRow, DataTable, FieldValue};
use lodviz_core::number::float::Float;

fn fl(x: f64) -> Float {
    Float::from_bits(x.to_bits())
}

fn val(x: Float) -> f64 {
    f64::from_bits(x.to_bits())
}

fn vals(xs: &[Float]) -> Vec<f64> {
    xs.iter().map(|&x| val(x)).collect()
}

fn num(x: f64) -> FieldValue {
    FieldValue::Numeric(fl(x))
}

fn text(s: &str) -> FieldValue {
    FieldValue::Text(s.into())
}

fn make_table() -> DataTable {
    let mut t = DataTable::default();
    for (x, y, cat) in [(1.0_f64, 10.0_f64, "A"), (2.0, 20.0, "B"), (3.0, 30.0, "A"), (4.0, 40.0, "B")]
    {
        let mut row = DataRow::new();
        row.insert("x".into(), num(x));
        row.insert("y".into(), num(y));
        row.insert("cat".into(), text(cat));
        t.push(row);
    }
    t
}

#[test]
fn test_field_value_as_f64() {
    assert_eq!(num(42.5).as_f64(), Some(fl(42.5)));
    assert_eq!(FieldValue::Timestamp(fl(1000.0)).as_f64(), Some(fl(1000.0)));
    assert_eq!(FieldValue::Bool(true).as_f64(), Some(fl(1.0)));
    assert_eq!(FieldValue::Bool(false).as_f64(), Some(fl(0.0)));
    assert_eq!(text("hi").as_f64(), None);
    assert_eq!(FieldValue::Null.as_f64(), None);
}

#[test]
fn test_field_value_as_str() {
    assert_eq!(text("hello").as_str(), Some("hello"));
    assert_eq!(num(1.0).as_str(), None);
}

#[test]
fn test_field_value_as_timestamp_and_null() {
    assert_eq!(FieldValue::Timestamp(fl(7.0)).as_timestamp(), Some(fl(7.0)));
    assert_eq!(num(8.0).as_timestamp(), Some(fl(8.0)));
    assert_eq!(FieldValue::Bool(true).as_timestamp(), None);
    assert_eq!(text("9").as_timestamp(), None);
    assert!(FieldValue::Null.is_null());
    assert!(!num(0.0).is_null());
    assert_eq!(text("same").copy(), text("same"));
}

#[test]
fn test_extract_numeric() {
    let table = make_table();
    let xs = table.extract_numeric("x");
    assert_eq!(vals(&xs), vec![1.0, 2.0, 3.0, 4.0]);
}

#[test]
fn test_extract_text() {
    let table = make_table();
    let cats = table.extract_text("cat");
    assert_eq!(cats, vec!["A", "B", "A", "B"]);
}

#[test]
fn test_group_by() {
    let table = make_table();
    let groups = table.group_by("cat");
    assert_eq!(groups.len(), 2);
    assert_eq!(groups[0].0, "A");
    assert_eq!(groups[0].1.len(), 2);
    assert_eq!(groups[1].0, "B");
    assert_eq!(groups[1].1.len(), 2);
}

#[test]
fn test_to_dataset_no_color() {
    let table = make_table();
    let enc = Encoding::new(Field::quantitative("x"), Field::quantitative("y"));
    let dataset = table.to_dataset(&enc);
    assert_eq!(dataset.series.len(), 1);
    assert_eq!(dataset.series[0].data.len(), 4);
    assert_eq!(dataset.series[0].data[0], DataPoint::new(fl(1.0), fl(10.0)));
}

#[test]
fn test_to_dataset_with_color() {
    let table = make_table();
    let enc = Encoding::new(Field::quantitative("x"), Field::quantitative("y"))
        .with_color(Field::nominal("cat"));
    let dataset = table.to_dataset(&enc);
    assert_eq!(dataset.series.len(), 2);
    // First group "A" has rows at x=1 and x=3
    assert_eq!(dataset.series[0].name, "A");
    assert_eq!(dataset.series[0].data.len(), 2);
    assert_eq!(dataset.series[1].name, "B");
    assert_eq!(dataset.series[1].data.len(), 2);
}

#[test]
fn test_to_bar_dataset() {
    let mut t = DataTable::default();
    for (cat, val) in [("Q1", 100.0_f64), ("Q2", 150.0), ("Q3", 120.0)] {
        let mut row = DataRow::new();
        row.insert("period".into(), text(cat));
        row.insert("revenue".into(), num(val));
        t.push(row);
    }
    let enc = Encoding::new(Field::nominal("period"), Field::quantitative("revenue"));
    let bd = t.to_bar_dataset(&enc);
    assert_eq!(bd.categories, vec!["Q1", "Q2", "Q3"]);
    assert_eq!(bd.series.len(), 1);
    assert_eq!(vals(&bd.series[0].values), vec![100.0, 150.0, 120.0]);
}

#[test]
fn test_to_bar_dataset_multi_series() {
    let mut t = DataTable::default();
    for (cat, val, product) in
        [("Q1", 100.0_f64, "A"), ("Q1", 80.0, "B"), ("Q2", 120.0, "A"), ("Q2", 90.0, "B")]
    {
        let mut row = DataRow::new();
        row.insert("period".into(), text(cat));
        row.insert("revenue".into(), num(val));
        row.insert("product".into(), text(product));
        t.push(row);
    }
    let enc = Encoding::new(Field::nominal("period"), Field::quantitative("revenue"))
        .with_color(Field::nominal("product"));
    let bd = t.to_bar_dataset(&enc);
    assert_eq!(bd.categories, vec!["Q1", "Q2"]);
    assert_eq!(bd.series.len(), 2);
    let series_a = bd.series.iter().find(|s| s.name == "A").expect("series A");
    assert_eq!(vals(&series_a.values), vec![100.0, 120.0]);
}

#[test]
fn test_empty_table() {
    let t = DataTable::default();
    assert!(t.is_empty());
    assert_eq!(t.len(), 0);
    let enc = Encoding::new(Field::quantitative("x"), Field::quantitative("y"));
    let ds = t.to_dataset(&enc);
    assert!(ds.series.is_empty() || ds.series[0].data.is_empty());
}

#[test]
fn test_data_row_insert_and_get() {
    let mut row = DataRow::default();
    assert!(row.get("x").is_none());
    assert_eq!(row.insert("x".into(), num(1.0)), None);
    assert_eq!(row.insert("label".into(), text("hello")), None);
    assert_eq!(row.insert("flag".into(), FieldValue::Bool(true)), None);
    assert_eq!(row.get("x"), Some(&num(1.0)));
    assert_eq!(row.get("label"), Some(&text("hello")));
    assert_eq!(row.get("flag"), Some(&FieldValue::Bool(true)));
    assert_eq!(row.insert("x".into(), num(2.0)), Some(num(1.0)));
    assert_eq!(row.get("x"), Some(&num(2.0)));
    assert_eq!(row.get("label"), Some(&text("hello")));
    assert!(row.get("X").is_none());
    let same = row.copy();
    assert_eq!(same.get("x"), Some(&num(2.0)));
    assert_eq!(same.get("flag"), Some(&FieldValue::Bool(true)));
}

#[test]
fn test_table_from_rows_keeps_order() {
    let mut first = DataRow::new();
    first.insert("k".into(), text("one"));
    let mut second = DataRow::new();
    second.insert("k".into(), text("two"));
    let table = DataTable::from_rows(vec![first, second]);
    assert_eq!(table.len(), 2);
    assert_eq!(table.rows()[0].get("k"), Some(&text("one")));
    assert_eq!(table.rows()[1].get("k"), Some(&text("two")));
    assert_eq!(DataTable::new(vec![]).len(), 0);
}

#[test]
fn test_extract_skips_other_kinds() {
    let mut t = DataTable::default();
    for value in [
        num(1.5),
        text("n/a"),
        FieldValue::Bool(true),
        FieldValue::Null,
        FieldValue::Timestamp(fl(9.0)),
    ] {
        let mut row = DataRow::new();
        row.insert("v".into(), value);
        t.push(row);
    }
    t.push(DataRow::new());
    assert_eq!(vals(&t.extract_numeric("v")), vec![1.5, 1.0, 9.0]);
    assert_eq!(t.extract_text("v"), vec!["n/a"]);
    assert!(t.extract_numeric("w").is_empty());
}

#[test]
fn test_group_by_stringifies_keys() {
    let mut t = DataTable::default();
    for value in [
        Some(num(2024.0)),
        Some(FieldValue::Bool(true)),
        None,
        Some(text("2024")),
        Some(FieldValue::Null),
        Some(FieldValue::Timestamp(fl(1704067200.0))),
        Some(FieldValue::Bool(false)),
        Some(num(-3.0)),
        Some(num(0.1)),
        Some(FieldValue::Bool(true)),
    ] {
        let mut row = DataRow::new();
        if let Some(v) = value {
            row.insert("k".into(), v);
        }
        t.push(row);
    }
    let groups = t.group_by("k");
    let keys: Vec<&str> = groups.iter().map(|g| g.0.as_str()).collect();
    assert_eq!(keys, vec!["2024", "true", "__null__", "1704067200", "false", "-3", "0.1"]);
    let sizes: Vec<usize> = groups.iter().map(|g| g.1.len()).collect();
    assert_eq!(sizes, vec![2, 2, 2, 1, 1, 1, 1]);
    let total: usize = sizes.iter().sum();
    assert_eq!(total, t.len());
    assert_eq!(groups[0].1.rows()[1].get("k"), Some(&text("2024")));
}

#[test]
fn test_to_dataset_skips_rows_without_numbers() {
    let mut t = make_table();
    let mut bad = DataRow::new();
    bad.insert("x".into(), num(5.0));
    bad.insert("y".into(), text("oops"));
    bad.insert("cat".into(), text("A"));
    t.push(bad);
    let mut missing = DataRow::new();
    missing.insert("y".into(), num(60.0));
    missing.insert("cat".into(), text("C"));
    t.push(missing);
    let enc = Encoding::new(Field::quantitative("x"), Field::quantitative("y"))
        .with_color(Field::nominal("cat"));
    let dataset = t.to_dataset(&enc);
    let names: Vec<&str> = dataset.series.iter().map(|s| s.name.as_str()).collect();
    assert_eq!(names, vec!["A", "B", "C"]);
    assert_eq!(
        dataset.series[0].data,
        vec![DataPoint::new(fl(1.0), fl(10.0)), DataPoint::new(fl(3.0), fl(30.0))]
    );
    assert!(dataset.series[2].data.is_empty());
    assert!(dataset.series.iter().all(|s| s.visible));
    let plain = t.to_dataset(&Encoding::new(Field::quantitative("x"), Field::quantitative("y")));
    assert_eq!(plain.series[0].name, "default");
    assert_eq!(plain.series[0].data.len(), 4);
}

#[test]
fn test_to_bar_dataset_missing_values_are_zero() {
    let mut t = DataTable::default();
    for (cat, value, product) in [
        ("Q1", Some(num(100.0)), "A"),
        ("Q2", Some(text("none")), "A"),
        ("Q2", Some(num(55.0)), "A"),
        ("Q3", None, "B"),
        ("Q1", Some(FieldValue::Bool(true)), "B"),
    ] {
        let mut row = DataRow::new();
        row.insert("period".into(), text(cat));
        if let Some(v) = value {
            row.insert("revenue".into(), v);
        }
        row.insert("product".into(), text(product));
        t.push(row);
    }
    let mut untagged = DataRow::new();
    untagged.insert("period".into(), num(4.0));
    untagged.insert("revenue".into(), num(1.0));
    t.push(untagged);
    let enc = Encoding::new(Field::nominal("period"), Field::quantitative("revenue"));
    let single = t.to_bar_dataset(&enc);
    assert_eq!(single.categories, vec!["Q1", "Q2", "Q3"]);
    assert_eq!(single.series.len(), 1);
    assert_eq!(single.series[0].name, "default");
    assert_eq!(vals(&single.series[0].values), vec![100.0, 0.0, 0.0]);
    let multi = t.to_bar_dataset(&enc.with_color(Field::nominal("product")));
    let names: Vec<&str> = multi.series.iter().map(|s| s.name.as_str()).collect();
    assert_eq!(names, vec!["A", "B", "__null__"]);
    assert_eq!(vals(&multi.series[0].values), vec![100.0, 0.0, 0.0]);
    assert_eq!(vals(&multi.series[1].values), vec![1.0, 0.0, 0.0]);
    assert_eq!(vals(&multi.series[2].values), vec![0.0, 0.0, 0.0]);
}

#[test]
fn test_field_value_from_plain_values() {
    assert_eq!(FieldValue::from(fl(1.0)), num(1.0));
    assert_eq!(FieldValue::from(42i32), num(42.0));
    assert_eq!(FieldValue::from(-7i32), num(-7.0));
    assert_eq!(FieldValue::from(9007199254740993i64), num(9007199254740993i64 as f64));
    assert_eq!(FieldValue::from(i64::MIN), num(i64::MIN as f64));
    assert_eq!(FieldValue::from(i64::MAX), num(i64::MAX as f64));
    assert_eq!(FieldValue::from(String::from("hello")), text("hello"));
    assert_eq!(FieldValue::text("hello"), text("hello"));
    assert_eq!(FieldValue::from(true), FieldValue::Bool(true));
    let mut row = DataRow::new();
    row.insert("x".to_owned(), FieldValue::from(fl(1.0)));
    row.insert("label".to_owned(), FieldValue::text("hello"));
    row.insert("flag".to_owned(), FieldValue::from(true));
    assert_eq!(row.get("x"), Some(&num(1.0)));
    assert_eq!(row.get("label"), Some(&text("hello")));
    assert_eq!(row.get("flag"), Some(&FieldValue::Bool(true)));
}

#[test]
fn test_from_rows_macro() {
    let mut row = DataRow::new();
    row.insert("x".to_owned(), FieldValue::from(fl(1.0)));
    row.insert("label".to_owned(), FieldValue::text("hello"));
    row.insert("flag".to_owned(), FieldValue::from(true));
    assert_eq!(row.get("x"), Some(&FieldValue::Numeric(fl(1.0))));
    assert_eq!(row.get("label"), Some(&FieldValue::Text("hello".into())));
    assert_eq!(row.get("flag"), Some(&FieldValue::Bool(true)));
}
