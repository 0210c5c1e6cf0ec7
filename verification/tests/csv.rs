use lodviz_core::model::csv::parse_csv;
use lodviz_core::model::field_value::{DataTable, FieldValue};
use lodviz_core::number::float::Float;

fn fl(x: f64) -> Float {
    Float::from_bits(x.to_bits())
}

fn num(x: f64) -> FieldValue {
    FieldValue::Numeric(fl(x))
}

fn text(s: &str) -> FieldValue {
    FieldValue::Text(s.into())
}

fn vals(xs: &[Float]) -> Vec<f64> {
    xs.iter().map(|x| f64::from_bits(x.to_bits())).collect()
}

/// The same parser on the standard library, to compare against.
fn std_parse(input: &str) -> Option<Vec<Vec<(String, FieldValue)>>> {
    let mut lines = input.lines().map(str::trim).filter(|l| !l.is_empty() && !l.starts_with('#'));
    let header_line = lines.next()?;
    let headers: Vec<&str> = header_line.split(',').map(str::trim).collect();
    let mut rows = Vec::new();
    for line in lines {
        let cells: Vec<&str> = line.split(',').collect();
        let mut row = Vec::new();
        for (i, &col) in headers.iter().enumerate() {
            let value = match cells.get(i) {
                Some(cell) => {
                    let cell = cell.trim();
                    if cell.is_empty() {
                        FieldValue::Null
                    } else if let Ok(n) = cell.parse::<f64>() {
                        num(n)
                    } else {
                        text(cell)
                    }
                }
                None => FieldValue::Null,
            };
            row.push((col.to_owned(), value));
        }
        rows.push(row);
    }
    Some(rows)
}

fn same_value(a: &FieldValue, b: &FieldValue) -> bool {
    match (a, b) {
        (FieldValue::Numeric(x), FieldValue::Numeric(y)) => {
            x.to_bits() == y.to_bits() || (x.is_nan() && y.is_nan())
        }
        _ => a == b,
    }
}

fn agrees(text: &str) {
    let expected = std_parse(text);
    let got: Result<DataTable, String> = parse_csv(text);
    match (expected, got) {
        (None, Err(message)) => assert_eq!(message, "CSV has no header row"),
        (Some(rows), Ok(table)) => {
            assert_eq!(table.len(), rows.len(), "{text:?}");
            for (row, expected) in table.rows().iter().zip(&rows) {
                let mut last: Vec<(&str, &FieldValue)> = Vec::new();
                for (name, value) in expected {
                    last.retain(|(n, _)| n != name);
                    last.push((name, value));
                }
                for (name, value) in last {
                    let cell = row.get(name).unwrap_or_else(|| panic!("{name:?} in {text:?}"));
                    assert!(same_value(cell, value), "{name:?} in {text:?}: {cell:?}");
                }
            }
        }
        (expected, got) => panic!("{text:?}: {expected:?} against {:?}", got.map(|t| t.len())),
    }
}

#[test]
fn test_parse_csv_basic() {
    let csv = "x,y\n1.0,2.0\n3.0,4.0";
    let table = parse_csv(csv).unwrap();
    assert_eq!(table.len(), 2);
    assert_eq!(vals(&table.extract_numeric("x")), vec![1.0, 3.0]);
    assert_eq!(vals(&table.extract_numeric("y")), vec![2.0, 4.0]);
}

#[test]
fn test_parse_csv_text_column() {
    let csv = "label,value\nApple,10.0\nBanana,20.0";
    let table = parse_csv(csv).unwrap();
    assert_eq!(table.extract_text("label"), vec!["Apple", "Banana"]);
    assert_eq!(vals(&table.extract_numeric("value")), vec![10.0, 20.0]);
}

#[test]
fn test_parse_csv_skips_comments_and_empty() {
    let csv = "# This is a comment\nx,y\n\n1.0,2.0\n# another comment\n3.0,4.0\n";
    let table = parse_csv(csv).unwrap();
    assert_eq!(table.len(), 2);
}

#[test]
fn test_parse_csv_missing_cells_become_null() {
    let csv = "a,b,c\n1.0,2.0";
    let table = parse_csv(csv).unwrap();
    let row = &table.rows()[0];
    assert_eq!(row.get("a"), Some(&num(1.0)));
    assert_eq!(row.get("b"), Some(&num(2.0)));
    assert_eq!(row.get("c"), Some(&FieldValue::Null));
}

#[test]
fn test_parse_csv_empty_input_returns_err() {
    assert!(parse_csv("").is_err());
    assert!(parse_csv("# only comments\n").is_err());
}

#[test]
fn test_parse_csv_error_message() {
    assert_eq!(parse_csv("  \n\t\n").unwrap_err(), "CSV has no header row");
    assert_eq!(parse_csv("\n\n#a,b\n  # c\n").unwrap_err(), "CSV has no header row");
}

#[test]
fn test_parse_csv_trims_and_classifies_cells() {
    let csv = "  name , value ,note\r\n  Ada ,\t 1e3 , first \r\n\u{a0}Bob\u{3000},, -inf \n  # skipped\n\u{2003}\nEve,nan,1,2,3";
    let table = parse_csv(csv).unwrap();
    assert_eq!(table.len(), 3);
    let rows = table.rows();
    assert_eq!(rows[0].get("name"), Some(&text("Ada")));
    assert_eq!(rows[0].get("value"), Some(&num(1000.0)));
    assert_eq!(rows[0].get("note"), Some(&text("first")));
    assert_eq!(rows[1].get("name"), Some(&text("Bob")));
    assert_eq!(rows[1].get("value"), Some(&FieldValue::Null));
    assert_eq!(rows[1].get("note"), Some(&num(f64::NEG_INFINITY)));
    assert_eq!(rows[2].get("name"), Some(&text("Eve")));
    assert!(matches!(rows[2].get("value"), Some(FieldValue::Numeric(x)) if x.is_nan()));
    assert_eq!(rows[2].get("note"), Some(&num(1.0)));
    assert!(rows[2].get("name ").is_none());
}

#[test]
fn test_parse_csv_agrees_with_std() {
    for text in [
        "",
        "\n",
        "a",
        "a\n",
        "a,b\n1,2\n",
        "a,b\r\n1,2\r\n3,4",
        ",\n,",
        "a,,b\n1,,2\n,,\n",
        "a,a\n1,2",
        "ä,ö,ü\n1,zwei,3.5e0\n√2,∞,-∞",
        " \u{85}x\u{2028},y\u{1680}\n\u{205f}1\u{202f},\u{200a}two\u{2000}",
        "x\ny\nz",
        "x , y\n 0x10 , 1_0\n+.5,-5.\n1e,e1\n.,-\n",
        "#c\n\n  #d\nh1,h2\n#e\nv1,v2\n\n",
        "h\n#\n\u{feff}v",
        "a,b\n\"1,2\",3",
        "a\u{b}b,c\u{c}\n1\u{b},2",
        "名前,値\n太郎,１２\n花子,12",
        "a,b,c\n1\n1,2\n1,2,3\n1,2,3,4\n",
        "t\nInfinity\n-NaN\ninfinit\n1e999\n-1e-999",
    ] {
        agrees(text);
    }
}
