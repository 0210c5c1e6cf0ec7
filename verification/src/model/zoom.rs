//! The part of the data that a zoomed or panned chart shows.

use crate::number::float::Float;
use vstd::prelude::*;

verus! {

/// The domain that a chart shows along both axes.
#[derive(Debug, Clone, Copy, PartialEq)]
pub struct ZoomTransform {
    pub x_min: Float,
    pub x_max: Float,
    pub y_min: Float,
    pub y_max: Float,
}

/// The start of an interval from `min` that is `range` long at first, after
/// zooming by `factor` round the position `center` between 0 and 1: the value
/// at that position stays where it is.
pub open spec fn zoomed_start(min: Float, range: Float, factor: Float, center: Float) -> Float {
    min.spec_add(center.spec_mul(range)).spec_sub(center.spec_mul(range.spec_div(factor)))
}

impl ZoomTransform {
    /// The transform that shows the whole of the given domain.
    pub fn from_domain(x_min: Float, x_max: Float, y_min: Float, y_max: Float) -> (r: ZoomTransform)
        ensures
            r == (ZoomTransform { x_min, x_max, y_min, y_max }),
    {
        ZoomTransform { x_min, x_max, y_min, y_max }
    }

    /// The transform after zooming by `factor` round the position
    /// `(center_x, center_y)`, each between 0 and 1. A factor above 1 zooms
    /// in: both ranges become `factor` times smaller, and the values at the
    /// centre stay where they are.
    pub fn zoom(&self, factor: Float, center_x: Float, center_y: Float) -> (r: ZoomTransform)
        ensures
            r.x_min == zoomed_start(self.x_min, self.x_max.spec_sub(self.x_min), factor, center_x),
            r.x_max == r.x_min.spec_add(self.x_max.spec_sub(self.x_min).spec_div(factor)),
            r.y_min == zoomed_start(self.y_min, self.y_max.spec_sub(self.y_min), factor, center_y),
            r.y_max == r.y_min.spec_add(self.y_max.spec_sub(self.y_min).spec_div(factor)),
    {
        let x_range = self.x_max.sub(self.x_min);
        let y_range = self.y_max.sub(self.y_min);
        let domain_cx = self.x_min.add(center_x.mul(x_range));
        let domain_cy = self.y_min.add(center_y.mul(y_range));
        let new_x_range = x_range.div(factor);
        let new_y_range = y_range.div(factor);
        let new_x_min = domain_cx.sub(center_x.mul(new_x_range));
        let new_y_min = domain_cy.sub(center_y.mul(new_y_range));
        ZoomTransform {
            x_min: new_x_min,
            x_max: new_x_min.add(new_x_range),
            y_min: new_y_min,
            y_max: new_y_min.add(new_y_range),
        }
    }

    /// The transform that shows the box between two corners, each given by
    /// positions between 0 and 1 from the top left of the chart. Along `y`
    /// the positions count downward, so the upper edge of the box becomes
    /// the new maximum.
    pub fn zoom_to_box(&self, x1: Float, y1: Float, x2: Float, y2: Float) -> (r: ZoomTransform)
        ensures
            r.x_min == self.x_min.spec_add(
                x1.spec_min(x2).spec_mul(self.x_max.spec_sub(self.x_min)),
            ),
            r.x_max == self.x_min.spec_add(
                x1.spec_max(x2).spec_mul(self.x_max.spec_sub(self.x_min)),
            ),
            r.y_max == self.y_max.spec_sub(
                y1.spec_min(y2).spec_mul(self.y_max.spec_sub(self.y_min)),
            ),
            r.y_min == self.y_max.spec_sub(
                y1.spec_max(y2).spec_mul(self.y_max.spec_sub(self.y_min)),
            ),
    {
        let x_range = self.x_max.sub(self.x_min);
        let y_range = self.y_max.sub(self.y_min);
        ZoomTransform {
            x_min: self.x_min.add(x1.min(x2).mul(x_range)),
            x_max: self.x_min.add(x1.max(x2).mul(x_range)),
            y_min: self.y_max.sub(y1.max(y2).mul(y_range)),
            y_max: self.y_max.sub(y1.min(y2).mul(y_range)),
        }
    }

    /// The transform moved by `dx` and `dy` in data units.
    pub fn pan(&self, dx: Float, dy: Float) -> (r: ZoomTransform)
        ensures
            r == (ZoomTransform {
                x_min: self.x_min.spec_add(dx),
                x_max: self.x_max.spec_add(dx),
                y_min: self.y_min.spec_add(dy),
                y_max: self.y_max.spec_add(dy),
            }),
    {
        ZoomTransform {
            x_min: self.x_min.add(dx),
            x_max: self.x_max.add(dx),
            y_min: self.y_min.add(dy),
            y_max: self.y_max.add(dy),
        }
    }

    /// The transform that shows the unzoomed domain again.
    pub fn reset(initial: &ZoomTransform) -> (r: ZoomTransform)
        ensures
            r == *initial,
    {
        *initial
    }
}

} // verus!
