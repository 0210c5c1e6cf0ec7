//! Mark types: how a chart draws its data.

use vstd::prelude::*;

verus! {

/// The visual primitive of a chart.
#[derive(Debug, Clone, Copy, PartialEq, Eq, Structural)]
pub enum Mark {
    /// Points joined by a line.
    Line,
    /// A line with the region below it filled.
    Area,
    /// One bar per category.
    Bar,
    /// One dot per point.
    Point,
    /// One sized circle per point.
    Circle,
}

} // verus!
