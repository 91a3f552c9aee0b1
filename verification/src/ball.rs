//! Field sources: bouncing disks with reflect-then-integrate motion.

use crate::fixed::{abs_i, min_i, COORD_LIMIT, MAX_DIM, SCALE, VEL_LIMIT};
use crate::point::Point;
use vstd::prelude::*;

verus! {

/// A bouncing disk with position, velocity and radius, confined to a
/// rectangular surface. No other component mutates a ball; the frame
/// driver advances it once per frame with [`Ball::mov`].
#[derive(Clone, Copy, Debug, PartialEq, Eq, Structural)]
pub struct Ball {
    pub position: Point,
    pub velocity: Point,
    pub radius: i64,
    pub bounds_w: i64,
    pub bounds_h: i64,
}

/// The velocity of one axis after the reflection phase of a step: it is
/// negated when the ball presses on the far wall while moving outward,
/// or on the near wall while moving inward.
pub open spec fn reflected_vel(p: int, v: int, r: int, bound: int) -> int {
    if p + r >= bound {
        if v > 0 {
            -v
        } else {
            v
        }
    } else if p - r <= 0 {
        if v < 0 {
            -v
        } else {
            v
        }
    } else {
        v
    }
}

/// The position of one axis after the clamp phase of a step: once a
/// wall threshold is met the position is clamped to it unconditionally,
/// even if the velocity already pointed back inside.
pub open spec fn clamped_pos(p: int, r: int, bound: int) -> int {
    if p + r >= bound {
        bound - r
    } else if p - r <= 0 {
        r
    } else {
        p
    }
}

/// The position of one axis after a full step: reflect and clamp first,
/// then integrate the (possibly flipped) velocity.
pub open spec fn moved_pos(p: int, v: int, r: int, bound: int) -> int {
    clamped_pos(p, r, bound) + reflected_vel(p, v, r, bound)
}

/// The fraction `r / 2^32` of `v`, rounded towards zero.
pub open spec fn spec_frac(r: u32, v: int) -> int {
    (r as int) * v / 0x1_0000_0000
}

/// The sign a random fraction picks for a velocity axis: positive for
/// the upper half of the range, negative otherwise.
pub open spec fn spec_axis_sign(r: u32) -> int {
    if r > 0x8000_0000u32 {
        1
    } else {
        -1
    }
}

/// Multiplies `v` by the fraction `r / 2^32`.
pub fn frac_mul(r: u32, v: i64) -> (res: i64)
    requires
        0 <= v <= MAX_DIM,
    ensures
        res == spec_frac(r, v as int),
        0 <= res <= v,
        v > 0 ==> res < v,
{
    let ru: u128 = r as u128;
    let vu: u128 = v as u128;
    proof {
        assert((ru as int) * (vu as int) <= 0xffff_ffff * (vu as int) && 0xffff_ffff * (
        vu as int) <= 0xffff_ffff * 8_192_000) by (nonlinear_arith)
            requires
                ru as int <= 0xffff_ffff,
                0 <= vu as int <= 8_192_000,
        ;
    }
    let prod: u128 = ru * vu;
    let q: u128 = prod / 0x1_0000_0000u128;
    proof {
        assert(q * 0x1_0000_0000 <= prod < (q + 1) * 0x1_0000_0000) by (nonlinear_arith)
            requires
                q == prod as int / 0x1_0000_0000,
        ;
    }
    q as i64
}

impl Ball {
    /// A ball is well formed when its points carry consistent magnitude
    /// caches, its radius is positive and fits the surface, its
    /// velocity components are bounded by `VEL_LIMIT`, and its position
    /// has not drifted more than `VEL_LIMIT` outside the surface.
    pub open spec fn wf(self) -> bool {
        &&& self.position.wf()
        &&& self.velocity.wf()
        &&& SCALE <= self.bounds_w <= MAX_DIM
        &&& SCALE <= self.bounds_h <= MAX_DIM
        &&& 0 < self.radius <= min_i(self.bounds_w as int, self.bounds_h as int)
        &&& abs_i(self.velocity.sx()) <= VEL_LIMIT
        &&& abs_i(self.velocity.sy()) <= VEL_LIMIT
        &&& -VEL_LIMIT <= self.position.sx() <= self.bounds_w + VEL_LIMIT
        &&& -VEL_LIMIT <= self.position.sy() <= self.bounds_h + VEL_LIMIT
    }

    /// Builds a ball directly from its motion state; the deterministic
    /// entry point used for testing in place of a random source.
    pub fn with_state(px: i64, py: i64, vx: i64, vy: i64, radius: i64, w: i64, h: i64) -> (b:
        Ball)
        requires
            SCALE <= w <= MAX_DIM,
            SCALE <= h <= MAX_DIM,
            0 < radius <= min_i(w as int, h as int),
            -VEL_LIMIT <= vx <= VEL_LIMIT,
            -VEL_LIMIT <= vy <= VEL_LIMIT,
            -VEL_LIMIT <= px <= w + VEL_LIMIT,
            -VEL_LIMIT <= py <= h + VEL_LIMIT,
        ensures
            b.wf(),
            b.position.sx() == px,
            b.position.sy() == py,
            b.velocity.sx() == vx,
            b.velocity.sy() == vy,
            b.radius == radius,
            b.bounds_w == w,
            b.bounds_h == h,
    {
        Ball {
            position: Point::new(px, py),
            velocity: Point::new(vx, vy),
            radius,
            bounds_w: w,
            bounds_h: h,
        }
    }

    /// Builds a ball from four random fractions, each a numerator over
    /// `2^32`: the position lands in the central 60% of the surface on
    /// each axis, the velocity gets a random per-axis direction and an
    /// offset-randomised magnitude, and the radius is scaled to the
    /// smaller surface side `wh`.
    pub fn new(w: i64, h: i64, wh: i64, rx: u32, ry: u32, rx2: u32, ry2: u32) -> (b: Ball)
        requires
            SCALE <= w <= MAX_DIM,
            SCALE <= h <= MAX_DIM,
            wh == min_i(w as int, h as int),
        ensures
            b.wf(),
            b.velocity.sx() == spec_axis_sign(rx) * (200 + spec_frac(rx2, 250)),
            b.velocity.sy() == spec_axis_sign(ry) * (200 + spec_frac(ry, 1000)),
            b.position.sx() == w / 5 + spec_frac(rx2, w * 3 / 5),
            b.position.sy() == h / 5 + spec_frac(ry2, h * 3 / 5),
            b.radius == wh / 15 + spec_frac(rx, wh / 15),
            b.bounds_w == w,
            b.bounds_h == h,
    {
        let vx_mag: i64 = 200 + frac_mul(rx2, 250);
        let vy_mag: i64 = 200 + frac_mul(ry, 1000);
        let vx: i64 = if rx > 0x8000_0000u32 {
            vx_mag
        } else {
            -vx_mag
        };
        let vy: i64 = if ry > 0x8000_0000u32 {
            vy_mag
        } else {
            -vy_mag
        };
        let px: i64 = w / 5 + frac_mul(rx2, w * 3 / 5);
        let py: i64 = h / 5 + frac_mul(ry2, h * 3 / 5);
        let base: i64 = wh / 15;
        let radius: i64 = base + frac_mul(rx, base);
        Ball {
            position: Point::new(px, py),
            velocity: Point::new(vx, vy),
            radius,
            bounds_w: w,
            bounds_h: h,
        }
    }

    /// Advances the ball one time step with reflect-then-integrate
    /// semantics, per axis independently: resolve the wall thresholds
    /// first (negate an outward velocity, clamp the position to the
    /// wall), then add the resulting velocity, recomputing the
    /// magnitude caches. Balls do not interact with each other.
    pub fn mov(&mut self)
        requires
            old(self).wf(),
        ensures
            final(self).wf(),
            final(self).radius == old(self).radius,
            final(self).bounds_w == old(self).bounds_w,
            final(self).bounds_h == old(self).bounds_h,
            final(self).velocity.sx() == reflected_vel(
                old(self).position.sx(),
                old(self).velocity.sx(),
                old(self).radius as int,
                old(self).bounds_w as int,
            ),
            final(self).velocity.sy() == reflected_vel(
                old(self).position.sy(),
                old(self).velocity.sy(),
                old(self).radius as int,
                old(self).bounds_h as int,
            ),
            final(self).position.sx() == moved_pos(
                old(self).position.sx(),
                old(self).velocity.sx(),
                old(self).radius as int,
                old(self).bounds_w as int,
            ),
            final(self).position.sy() == moved_pos(
                old(self).position.sy(),
                old(self).velocity.sy(),
                old(self).radius as int,
                old(self).bounds_h as int,
            ),
    {
        let mut px: i64 = self.position.x;
        let mut py: i64 = self.position.y;
        let mut vx: i64 = self.velocity.x;
        let mut vy: i64 = self.velocity.y;

        if px >= self.bounds_w - self.radius {
            if vx > 0 {
                vx = -vx;
            }
            px = self.bounds_w - self.radius;
        } else if px <= self.radius {
            if vx < 0 {
                vx = -vx;
            }
            px = self.radius;
        }

        if py >= self.bounds_h - self.radius {
            if vy > 0 {
                vy = -vy;
            }
            py = self.bounds_h - self.radius;
        } else if py <= self.radius {
            if vy < 0 {
                vy = -vy;
            }
            py = self.radius;
        }

        self.velocity = Point::new(vx, vy);
        self.position = Point::new(px + vx, py + vy);
    }
}

/// Containment after a step, for a ball that fits its surface: each
/// position axis stays within the band `[radius, bound - radius]`
/// widened on each side by the velocity bound `VEL_LIMIT`. The clamp
/// phase always lands inside the exact band; the subsequent integration
/// can carry at most one velocity component past it.
pub proof fn lemma_move_containment(b: Ball)
    requires
        b.wf(),
        2 * b.radius <= b.bounds_w,
        2 * b.radius <= b.bounds_h,
    ensures
        b.radius - VEL_LIMIT <= moved_pos(
            b.position.sx(),
            b.velocity.sx(),
            b.radius as int,
            b.bounds_w as int,
        ) <= b.bounds_w - b.radius + VEL_LIMIT,
        b.radius - VEL_LIMIT <= moved_pos(
            b.position.sy(),
            b.velocity.sy(),
            b.radius as int,
            b.bounds_h as int,
        ) <= b.bounds_h - b.radius + VEL_LIMIT,
{
}

} // verus!
