//! `==` on [`Float`] is numeric equality, as on hardware floats.

use crate::number::float::Float;
use vstd::prelude::*;
use vstd::std_specs::cmp::PartialEqSpecImpl;

verus! {

impl PartialEq for Float {
    fn eq(&self, other: &Float) -> (r: bool) {
        self.same(*other)
    }
}

impl PartialEqSpecImpl for Float {
    open spec fn obeys_eq_spec() -> bool {
        true
    }

    open spec fn eq_spec(&self, other: &Float) -> bool {
        self.spec_same(*other)
    }
}

} // verus!
