//! Data model: points and series, tables and their conversion, scales,
//! selections, themes and chart specifications.

pub mod a11y;
pub mod chart_spec;
pub mod convert;
pub mod csv;
pub mod data;
pub mod encoding;
pub mod field_from;
pub mod field_value;
pub mod mark;
pub mod scale;
pub mod selection;
pub mod style;
pub mod theme;
pub mod zoom;
pub mod legend;
