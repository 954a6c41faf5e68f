//! Integer 2D geometry: points, sizes and rectangles with signed coordinates.
//!
//! Negative coordinates are legal inputs for drawing operations; every drawing
//! routine clips its rectangle against the target grid before touching cells.

use vstd::prelude::*;

verus! {

/// Coordinate type used throughout the crate. Signed, so callers may describe
/// rectangles and text origins that hang off the left or top edge.
pub type CoordType = i32;

#[derive(Clone, Copy, PartialEq, Eq, Structural, Debug)]
pub struct Point {
    pub x: CoordType,
    pub y: CoordType,
}

impl Point {
    /// The smallest representable point; used as the "invalid" cursor marker.
    pub fn new_min() -> (r: Point)
        ensures
            r.x == i32::MIN,
            r.y == i32::MIN,
    {
        Point { x: i32::MIN, y: i32::MIN }
    }
}

#[derive(Clone, Copy, PartialEq, Eq, Structural, Debug)]
pub struct Size {
    pub width: CoordType,
    pub height: CoordType,
}

impl Size {
    /// The rectangle `[0, width) x [0, height)` covered by this size.
    pub open spec fn spec_as_rect(self) -> Rect {
        Rect { left: 0, top: 0, right: self.width, bottom: self.height }
    }

    pub fn as_rect(self) -> (r: Rect)
        ensures
            r == self.spec_as_rect(),
    {
        Rect { left: 0, top: 0, right: self.width, bottom: self.height }
    }
}

#[derive(Clone, Copy, PartialEq, Eq, Structural, Debug)]
pub struct Rect {
    pub left: CoordType,
    pub top: CoordType,
    pub right: CoordType,
    pub bottom: CoordType,
}

impl Rect {
    /// A rectangle is empty when it covers no cell.
    pub open spec fn spec_is_empty(self) -> bool {
        self.left >= self.right || self.top >= self.bottom
    }

    pub fn is_empty(&self) -> (r: bool)
        ensures
            r == self.spec_is_empty(),
    {
        self.left >= self.right || self.top >= self.bottom
    }

    /// The intersection keeps, on each axis, the larger lower bound and the
    /// smaller upper bound; the result is empty when the inputs are disjoint.
    pub open spec fn spec_intersect(self, rhs: Rect) -> Rect {
        Rect {
            left: if self.left >= rhs.left { self.left } else { rhs.left },
            top: if self.top >= rhs.top { self.top } else { rhs.top },
            right: if self.right <= rhs.right { self.right } else { rhs.right },
            bottom: if self.bottom <= rhs.bottom { self.bottom } else { rhs.bottom },
        }
    }

    pub fn intersect(&self, rhs: Rect) -> (r: Rect)
        ensures
            r == self.spec_intersect(rhs),
    {
        Rect {
            left: if self.left >= rhs.left { self.left } else { rhs.left },
            top: if self.top >= rhs.top { self.top } else { rhs.top },
            right: if self.right <= rhs.right { self.right } else { rhs.right },
            bottom: if self.bottom <= rhs.bottom { self.bottom } else { rhs.bottom },
        }
    }

    /// Width of the rectangle, in columns.
    pub fn width(&self) -> (r: CoordType)
        requires
            self.right - self.left <= i32::MAX,
            self.right - self.left >= i32::MIN,
        ensures
            r == self.right - self.left,
    {
        self.right - self.left
    }

    /// Height of the rectangle, in rows.
    pub fn height(&self) -> (r: CoordType)
        requires
            self.bottom - self.top <= i32::MAX,
            self.bottom - self.top >= i32::MIN,
        ensures
            r == self.bottom - self.top,
    {
        self.bottom - self.top
    }
}

} // verus!
