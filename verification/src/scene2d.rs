//! Two-dimensional shapes in normalized coordinates.

use vstd::prelude::*;
use crate::fixed::Fixed;

verus! {

/// A line segment between `(x0, y0)` and `(x1, y1)`. The endpoints may come
/// in either order.
#[derive(Clone, Copy, Debug, PartialEq, Eq, Structural)]
pub struct Line2D {
    pub x0: Fixed,
    pub y0: Fixed,
    pub x1: Fixed,
    pub y1: Fixed,
}

/// An ellipse given by two opposite corners of the rectangle that contains
/// it.
#[derive(Clone, Copy, Debug, PartialEq, Eq, Structural)]
pub struct Ellipse2D {
    pub x0: Fixed,
    pub y0: Fixed,
    pub x1: Fixed,
    pub y1: Fixed,
}

/// A drawable two-dimensional shape.
#[derive(Clone, Copy, Debug, PartialEq, Eq, Structural)]
pub enum Shape2D {
    Line2D(Line2D),
    Ellipse2D(Ellipse2D),
}

impl Line2D {
    /// The same segment with its endpoints exchanged.
    pub open spec fn reversed(self) -> Line2D {
        Line2D { x0: self.x1, y0: self.y1, x1: self.x0, y1: self.y0 }
    }
}

} // verus!
