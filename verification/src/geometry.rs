//! Layout coordinates and rectangles.
//!
//! Every coordinate is a fixed-point number with eight fractional bits, the
//! precision in which surface-local positions travel to clients. Whole
//! numbers of pixels are multiples of [`PIXEL`].

use vstd::prelude::*;

verus! {

/// A layout coordinate: a fixed-point number with eight fractional bits.
pub type Fixed = i32;

/// One pixel in layout coordinates.
pub const PIXEL: i32 = 256;

/// A location on the screen, in layout coordinates.
#[derive(Clone, Copy, Debug, PartialEq, Eq, Structural)]
pub struct Point {
    pub x: Fixed,
    pub y: Fixed,
}

/// A location relative to the origin of a surface. The difference of two
/// layout coordinates needs one bit more than either of them, so the fields
/// are wider than [`Fixed`].
#[derive(Clone, Copy, Debug, PartialEq, Eq, Structural)]
pub struct Local {
    pub x: i64,
    pub y: i64,
}

/// The rectangle a surface occupies, in layout coordinates.
#[derive(Clone, Copy, Debug, PartialEq, Eq, Structural)]
pub struct Area {
    pub x: Fixed,
    pub y: Fixed,
    pub width: Fixed,
    pub height: Fixed,
}

impl Area {
    /// A rectangle without a positive width and height holds no point.
    pub open spec fn is_empty(self) -> bool {
        self.width <= 0 || self.height <= 0
    }

    /// The rectangle is closed at its left and top edge and open at its right
    /// and bottom edge.
    pub open spec fn holds(self, point: Point) -> bool {
        &&& !self.is_empty()
        &&& self.x <= point.x < self.x + self.width
        &&& self.y <= point.y < self.y + self.height
    }

    /// `point` as seen from the rectangle's origin.
    pub open spec fn relative(self, point: Point) -> Local {
        Local { x: (point.x - self.x) as i64, y: (point.y - self.y) as i64 }
    }

    pub fn new(x: Fixed, y: Fixed, width: Fixed, height: Fixed) -> (area: Area)
        ensures
            area == (Area { x, y, width, height }),
    {
        Area { x, y, width, height }
    }

    /// Whether `point` lies inside the rectangle.
    pub fn contains_point(&self, point: Point) -> (inside: bool)
        ensures
            inside == self.holds(point),
    {
        if self.width <= 0 || self.height <= 0 {
            return false;
        }
        let px: i64 = point.x as i64;
        let py: i64 = point.y as i64;
        let left: i64 = self.x as i64;
        let top: i64 = self.y as i64;
        let right: i64 = left + self.width as i64;
        let bottom: i64 = top + self.height as i64;
        left <= px && px < right && top <= py && py < bottom
    }

    /// Subtracts the rectangle's origin from `point`.
    pub fn map_point(&self, point: Point) -> (local: Local)
        ensures
            local == self.relative(point),
            local.x == point.x - self.x,
            local.y == point.y - self.y,
    {
        Local { x: point.x as i64 - self.x as i64, y: point.y as i64 - self.y as i64 }
    }
}

} // verus!
