//! Fixed-point units and global bounds.
//!
//! Coordinates are stored in subpixels (`SCALE` subpixels per pixel) and
//! field potentials in units of `1/FSCALE`, so the iso-threshold `1.0`
//! becomes `FSCALE` and the boundary potential `0.6` becomes
//! `BOUNDARY_FORCE`. The remaining constants are the machine bounds under
//! which every arithmetic step of the library is proved free of overflow.

use vstd::prelude::*;

verus! {

/// Subpixels per pixel: every coordinate is an integer count of these.
pub const SCALE: i64 = 1000;

/// Lattice step in subpixels: nodes sit ten pixels apart.
pub const STEP: i64 = 10_000;

/// Fixed-point unit of the scalar field; a potential of one iso-unit.
pub const FSCALE: i64 = 1_000_000;

/// Potential asserted on the padding ring: 0.6 iso-units.
pub const BOUNDARY_FORCE: i64 = 600_000;

/// Floor applied to a squared node-to-ball distance before dividing.
///
/// A ball centred exactly on a lattice node would give a zero
/// denominator; the documented policy here is an epsilon floor of
/// (0.1 pixel)^2, which leaves such a node with a very large finite
/// potential (it still reads as far inside the contour).
pub const DEN_FLOOR: i64 = 10_000;

/// Largest surface side accepted, in subpixels (8192 pixels).
pub const MAX_DIM: i64 = 8_192_000;

/// Largest surface side accepted, in pixels.
pub const MAX_DIM_PX: u32 = 8192;

/// Most field sources one lamp may hold.
pub const MAX_BALLS: usize = 64;

/// Strict bound on the magnitude of either velocity component of a ball,
/// in subpixels per frame (the randomised construction stays below 1.2
/// pixels per frame).
pub const VEL_LIMIT: i64 = 1200;

/// Bound on any coordinate handed to `Point::new`; keeps x^2 + y^2
/// within `i64`.
pub const COORD_LIMIT: i64 = 16_000_000;

/// Bound on one ball's contribution to a node's potential:
/// `(FSCALE / DEN_FLOOR) * MAX_DIM * MAX_DIM`.
pub const TERM_LIMIT: i64 = 100 * 8_192_000 * 8_192_000;

/// Bound on the magnitude of any stored field potential:
/// `MAX_BALLS * TERM_LIMIT`.
pub const FORCE_LIMIT: i64 = 64 * 100 * 8_192_000 * 8_192_000;

/// Absolute value over the mathematical integers.
pub open spec fn abs_i(x: int) -> int {
    if x < 0 {
        -x
    } else {
        x
    }
}

/// Minimum of two mathematical integers.
pub open spec fn min_i(a: int, b: int) -> int {
    if a <= b {
        a
    } else {
        b
    }
}

} // verus!
