use metaball::ball::{frac_mul, Ball};

const SCALE: i64 = 1000;

fn ball(px: i64, py: i64, vx: i64, vy: i64, r: i64, w: i64, h: i64) -> Ball {
    Ball::with_state(px, py, vx, vy, r, w, h)
}

#[test]
fn free_flight_adds_velocity_and_recomputes_magnitude() {
    let mut b = ball(50_000, 40_000, 500, -300, 5_000, 100_000, 100_000);
    b.mov();
    assert_eq!(b.position.x, 50_500);
    assert_eq!(b.position.y, 39_700);
    assert_eq!(b.velocity.x, 500);
    assert_eq!(b.velocity.y, -300);
    assert_eq!(
        b.position.magnitude,
        50_500i64 * 50_500 + 39_700i64 * 39_700
    );
    assert_eq!(b.velocity.magnitude, 500i64 * 500 + 300i64 * 300);
}

#[test]
fn far_wall_reflects_outward_velocity_and_clamps() {
    // position at the far threshold, still moving outward
    let mut b = ball(95_000, 50_000, 700, 0, 5_000, 100_000, 100_000);
    b.mov();
    // velocity negated, position clamped to the wall, then integrated
    assert_eq!(b.velocity.x, -700);
    assert_eq!(b.position.x, 95_000 - 700);
}

#[test]
fn far_wall_clamps_even_if_velocity_already_inward() {
    let mut b = ball(96_200, 50_000, -400, 0, 5_000, 100_000, 100_000);
    b.mov();
    // velocity kept, position clamped unconditionally, then integrated
    assert_eq!(b.velocity.x, -400);
    assert_eq!(b.position.x, 95_000 - 400);
}

#[test]
fn near_wall_reflects_inward_velocity_and_clamps() {
    let mut b = ball(4_000, 50_000, -250, 0, 5_000, 100_000, 100_000);
    b.mov();
    assert_eq!(b.velocity.x, 250);
    assert_eq!(b.position.x, 5_000 + 250);
}

#[test]
fn containment_band_holds_over_many_steps() {
    // the containment invariant: each axis stays within
    // [radius - 1200, bound - radius + 1200] after every step
    let w = 20_000i64;
    let h = 30_000i64;
    let r = 4_000i64;
    let mut b = ball(10_000, 10_000, 1_100, -900, r, w, h);
    for _ in 0..500 {
        b.mov();
        assert!(b.position.x >= r - 1200 && b.position.x <= w - r + 1200);
        assert!(b.position.y >= r - 1200 && b.position.y <= h - r + 1200);
    }
}

#[test]
fn oversized_ball_pins_to_far_clamp() {
    // a radius beyond half the bound is accepted; the far clamp wins
    // every frame
    let w = 2_000i64;
    let r = 1_500i64;
    let mut b = ball(1_000, 1_000, 0, 0, r, w, 2_000);
    b.mov();
    assert_eq!(b.position.x, w - r);
    b.mov();
    assert_eq!(b.position.x, w - r);
}

#[test]
fn frac_mul_is_the_u32_fraction() {
    assert_eq!(frac_mul(0, 250), 0);
    assert_eq!(frac_mul(u32::MAX, 250), 249);
    assert_eq!(frac_mul(1 << 31, 1000), 500);
    assert_eq!(frac_mul(1 << 30, 200_000), 50_000);
}

#[test]
fn randomised_construction_formulas_zero_fractions() {
    let w = 3_000 * SCALE;
    let h = 3_000 * SCALE;
    let b = Ball::new(w, h, w, 0, 0, 0, 0);
    // both axis signs fall to the negative side, no random offset
    assert_eq!(b.velocity.x, -200);
    assert_eq!(b.velocity.y, -200);
    assert_eq!(b.position.x, w / 5);
    assert_eq!(b.position.y, h / 5);
    assert_eq!(b.radius, w / 15);
    assert_eq!(b.bounds_w, w);
    assert_eq!(b.bounds_h, h);
}

#[test]
fn randomised_construction_formulas_max_fractions() {
    let w = 3_000 * SCALE;
    let h = 3_000 * SCALE;
    let b = Ball::new(w, h, w, u32::MAX, u32::MAX, u32::MAX, u32::MAX);
    assert_eq!(b.velocity.x, 200 + 249);
    assert_eq!(b.velocity.y, 200 + 999);
    // central 60% of the surface: w/5 + frac * 3w/5
    assert_eq!(b.position.x, w / 5 + frac_mul(u32::MAX, w * 3 / 5));
    assert!(b.position.x < w * 4 / 5);
    assert_eq!(b.radius, w / 15 + frac_mul(u32::MAX, w / 15));
    assert!(b.radius < 2 * (w / 15));
}
