use lodviz_core::model::data::DataType;
use lodviz_core::model::encoding::{Encoding, Field};

#[test]
fn test_field_creation() {
    let field = Field::new("revenue", DataType::Quantitative);
    assert_eq!(field.name, "revenue");
    assert_eq!(field.data_type, DataType::Quantitative);
}

#[test]
fn test_field_convenience_methods() {
    let quant = Field::quantitative("value");
    assert_eq!(quant.data_type, DataType::Quantitative);

    let temp = Field::temporal("date");
    assert_eq!(temp.data_type, DataType::Temporal);

    let nom = Field::nominal("category");
    assert_eq!(nom.data_type, DataType::Nominal);

    let ord = Field::ordinal("rank");
    assert_eq!(ord.data_type, DataType::Ordinal);
}

#[test]
fn test_encoding_basic() {
    let encoding = Encoding::new(Field::quantitative("x"), Field::quantitative("y"));
    assert_eq!(encoding.x.name, "x");
    assert_eq!(encoding.y.name, "y");
    assert!(encoding.color.is_none());
    assert!(encoding.size.is_none());
}

#[test]
fn test_encoding_with_color() {
    let encoding = Encoding::new(Field::quantitative("x"), Field::quantitative("y"))
        .with_color(Field::nominal("category"));
    assert!(encoding.color.is_some());
    assert_eq!(encoding.color.unwrap().name, "category");
}

#[test]
fn test_encoding_with_size() {
    let encoding = Encoding::new(Field::quantitative("x"), Field::quantitative("y"))
        .with_size(Field::quantitative("magnitude"));
    assert!(encoding.size.is_some());
    assert_eq!(encoding.size.unwrap().name, "magnitude");
}

#[test]
fn test_encoding_builder_pattern() {
    let encoding = Encoding::new(Field::quantitative("x"), Field::quantitative("y"))
        .with_color(Field::nominal("category"))
        .with_size(Field::quantitative("value"));
    assert!(encoding.color.is_some());
    assert!(encoding.size.is_some());
}

#[test]
fn test_encoding_optional_channels() {
    let base = Encoding::new(Field::quantitative("x"), Field::quantitative("y"))
        .with_color(Field::nominal("group"));
    let kept = base.clone().with_color_opt(None).with_size_opt(None);
    assert_eq!(kept.color.unwrap().name, "group");
    assert!(kept.size.is_none());
    let set = base
        .with_color_opt(Some(Field::ordinal("rank")))
        .with_size_opt(Some(Field::quantitative("weight")));
    let color = set.color.unwrap();
    assert_eq!(color.name, "rank");
    assert_eq!(color.data_type, DataType::Ordinal);
    assert_eq!(set.size.unwrap().name, "weight");
    assert_eq!(set.x.name, "x");
    assert_eq!(set.y.name, "y");
}
