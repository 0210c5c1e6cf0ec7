//! Which column of a table feeds which visual channel.

use crate::model::data::DataType;
use vstd::prelude::*;

verus! {

/// A column name and how its values are to be read.
#[derive(Debug, Clone)]
pub struct Field {
    pub name: String,
    pub data_type: DataType,
}

impl Field {
    /// The field of the column called `name`.
    pub fn new(name: &str, data_type: DataType) -> (r: Field)
        ensures
            r.name@ == name@,
            r.data_type == data_type,
    {
        Field { name: name.to_owned(), data_type }
    }

    /// A field that holds the same as this one.
    pub fn copy(&self) -> (r: Field)
        ensures
            r.name@ == self.name@,
            r.data_type == self.data_type,
    {
        Field { name: self.name.clone(), data_type: self.data_type }
    }

    /// A field of continuous numbers.
    pub fn quantitative(name: &str) -> (r: Field)
        ensures
            r.name@ == name@,
            r.data_type == DataType::Quantitative,
    {
        Field::new(name, DataType::Quantitative)
    }

    /// A field of points in time.
    pub fn temporal(name: &str) -> (r: Field)
        ensures
            r.name@ == name@,
            r.data_type == DataType::Temporal,
    {
        Field::new(name, DataType::Temporal)
    }

    /// A field of unordered categories.
    pub fn nominal(name: &str) -> (r: Field)
        ensures
            r.name@ == name@,
            r.data_type == DataType::Nominal,
    {
        Field::new(name, DataType::Nominal)
    }

    /// A field of ordered categories.
    pub fn ordinal(name: &str) -> (r: Field)
        ensures
            r.name@ == name@,
            r.data_type == DataType::Ordinal,
    {
        Field::new(name, DataType::Ordinal)
    }
}

/// The fields behind the position channels and the optional colour and size
/// channels.
#[derive(Debug, Clone)]
pub struct Encoding {
    pub x: Field,
    pub y: Field,
    pub color: Option<Field>,
    pub size: Option<Field>,
}

impl Encoding {
    /// An encoding of the two position channels only.
    pub fn new(x: Field, y: Field) -> (r: Encoding)
        ensures
            r.x == x,
            r.y == y,
            r.color.is_none(),
            r.size.is_none(),
    {
        Encoding { x, y, color: None, size: None }
    }

    /// Sets the colour channel.
    pub fn with_color(self, color: Field) -> (r: Encoding)
        ensures
            r == (Encoding { color: Some(color), ..self }),
    {
        Encoding { x: self.x, y: self.y, color: Some(color), size: self.size }
    }

    /// Sets the size channel.
    pub fn with_size(self, size: Field) -> (r: Encoding)
        ensures
            r == (Encoding { size: Some(size), ..self }),
    {
        Encoding { x: self.x, y: self.y, color: self.color, size: Some(size) }
    }

    /// Sets the colour channel when a field is given, and keeps the present
    /// one otherwise.
    pub fn with_color_opt(self, color: Option<Field>) -> (r: Encoding)
        ensures
            r == (Encoding { color: if color.is_some() { color } else { self.color }, ..self }),
    {
        match color {
            Some(f) => self.with_color(f),
            None => self,
        }
    }

    /// Sets the size channel when a field is given, and keeps the present one
    /// otherwise.
    pub fn with_size_opt(self, size: Option<Field>) -> (r: Encoding)
        ensures
            r == (Encoding { size: if size.is_some() { size } else { self.size }, ..self }),
    {
        match size {
            Some(f) => self.with_size(f),
            None => self,
        }
    }
}

} // verus!
