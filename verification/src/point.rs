//! Planar points whose squared length is carried as a derived cache.

use crate::fixed::COORD_LIMIT;
use vstd::prelude::*;

verus! {

/// A point `{x, y}` together with `magnitude = x*x + y*y`.
///
/// The magnitude field is never set independently: it is recomputed by
/// every constructor, so a well-formed point can never drift.
#[derive(Clone, Copy, Debug, PartialEq, Eq, Structural)]
pub struct Point {
    pub x: i64,
    pub y: i64,
    pub magnitude: i64,
}

impl Point {
    /// The x coordinate, in subpixels.
    pub open spec fn sx(self) -> int {
        self.x as int
    }

    /// The y coordinate, in subpixels.
    pub open spec fn sy(self) -> int {
        self.y as int
    }

    /// The cached squared length.
    pub open spec fn smag(self) -> int {
        self.magnitude as int
    }

    /// The derived cache agrees with the coordinates and both
    /// coordinates are small enough that squaring cannot overflow.
    pub open spec fn wf(self) -> bool {
        &&& self.smag() == self.sx() * self.sx() + self.sy() * self.sy()
        &&& -COORD_LIMIT <= self.sx() <= COORD_LIMIT
        &&& -COORD_LIMIT <= self.sy() <= COORD_LIMIT
    }

    /// Builds a point from coordinates, computing the magnitude cache.
    pub fn new(x: i64, y: i64) -> (p: Point)
        requires
            -COORD_LIMIT <= x <= COORD_LIMIT,
            -COORD_LIMIT <= y <= COORD_LIMIT,
        ensures
            p.wf(),
            p.sx() == x,
            p.sy() == y,
    {
        proof {
            assert(0 <= x * x <= COORD_LIMIT * COORD_LIMIT && 0 <= y * y <= COORD_LIMIT
                * COORD_LIMIT) by (nonlinear_arith)
                requires
                    -COORD_LIMIT <= x <= COORD_LIMIT,
                    -COORD_LIMIT <= y <= COORD_LIMIT,
            ;
        }
        Point { x, y, magnitude: x * x + y * y }
    }

    /// The translation of `self` by `d`, with the magnitude cache
    /// recomputed for the new coordinates.
    pub fn translated(self, d: Point) -> (p: Point)
        requires
            -COORD_LIMIT <= self.sx() + d.sx() <= COORD_LIMIT,
            -COORD_LIMIT <= self.sy() + d.sy() <= COORD_LIMIT,
        ensures
            p.wf(),
            p.sx() == self.sx() + d.sx(),
            p.sy() == self.sy() + d.sy(),
    {
        Point::new(self.x + d.x, self.y + d.y)
    }
}

impl Default for Point {
    /// The origin, with a zero magnitude cache.
    fn default() -> (p: Point)
        ensures
            p.wf(),
            p.sx() == 0,
            p.sy() == 0,
    {
        Point::new(0, 0)
    }
}

/// A vertex of a traced contour, in subpixels.
///
/// Contour points interpolated along lattice edges carry no magnitude
/// cache; they are plain coordinates handed to the rasteriser.
#[derive(Clone, Copy, Debug, PartialEq, Eq, Structural)]
pub struct PathPoint {
    pub x: i64,
    pub y: i64,
}

} // verus!
