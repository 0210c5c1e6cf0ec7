//! Conversions of plain values into table cells.

use crate::model::field_value::FieldValue;
use crate::number::float::Float;
use vstd::prelude::*;
use vstd::std_specs::convert::FromSpecImpl;

verus! {

impl From<Float> for FieldValue {
    fn from(v: Float) -> (r: FieldValue) {
        FieldValue::Numeric(v)
    }
}

impl FromSpecImpl<Float> for FieldValue {
    open spec fn obeys_from_spec() -> bool {
        true
    }

    open spec fn from_spec(v: Float) -> FieldValue {
        FieldValue::Numeric(v)
    }
}

impl From<i64> for FieldValue {
    fn from(v: i64) -> (r: FieldValue) {
        FieldValue::Numeric(Float::from_i64(v))
    }
}

impl FromSpecImpl<i64> for FieldValue {
    open spec fn obeys_from_spec() -> bool {
        true
    }

    open spec fn from_spec(v: i64) -> FieldValue {
        FieldValue::Numeric(Float::spec_from_i64(v))
    }
}

impl From<i32> for FieldValue {
    fn from(v: i32) -> (r: FieldValue) {
        FieldValue::Numeric(Float::from_i64(v as i64))
    }
}

impl FromSpecImpl<i32> for FieldValue {
    open spec fn obeys_from_spec() -> bool {
        true
    }

    open spec fn from_spec(v: i32) -> FieldValue {
        FieldValue::Numeric(Float::spec_from_i64(v as i64))
    }
}

impl From<String> for FieldValue {
    fn from(s: String) -> (r: FieldValue) {
        FieldValue::Text(s)
    }
}

impl FromSpecImpl<String> for FieldValue {
    open spec fn obeys_from_spec() -> bool {
        true
    }

    open spec fn from_spec(s: String) -> FieldValue {
        FieldValue::Text(s)
    }
}

impl From<bool> for FieldValue {
    fn from(b: bool) -> (r: FieldValue) {
        FieldValue::Bool(b)
    }
}

impl FromSpecImpl<bool> for FieldValue {
    open spec fn obeys_from_spec() -> bool {
        true
    }

    open spec fn from_spec(b: bool) -> FieldValue {
        FieldValue::Bool(b)
    }
}

} // verus!
