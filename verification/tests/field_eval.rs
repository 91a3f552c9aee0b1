use metaball::ball::Ball;
use metaball::field::{compute_force, sample_force};
use metaball::lattice::Lattice;

fn one_ball(px: i64, py: i64, r: i64) -> Vec<Ball> {
    vec![Ball::with_state(px, py, 0, 0, r, 100_000, 100_000)]
}

#[test]
fn boundary_ring_returns_fixed_potential() {
    let mut lat = Lattice::new(100_000, 100_000);
    let balls = one_ball(30_000, 30_000, 5_000);
    assert_eq!(compute_force(&mut lat, &balls, 1, 0, 5), 600_000);
    assert_eq!(compute_force(&mut lat, &balls, -1, 5, 0), -600_000);
    assert_eq!(compute_force(&mut lat, &balls, 1, 11, 5), 600_000);
    assert_eq!(compute_force(&mut lat, &balls, -1, 5, 11), -600_000);
}

#[test]
fn out_of_range_coordinate_clamps_to_the_ring() {
    let mut lat = Lattice::new(100_000, 100_000);
    let balls = one_ball(30_000, 30_000, 5_000);
    // one node past the padding ring recovers to the last valid node
    assert_eq!(compute_force(&mut lat, &balls, 1, 12, 5), 600_000);
    assert_eq!(compute_force(&mut lat, &balls, 1, -1, 5), 600_000);
}

#[test]
fn interior_potential_is_radius_squared_over_distance_squared() {
    let mut lat = Lattice::new(100_000, 100_000);
    // node (2,2) sits at (20000, 20000); squared distance to the ball
    // centre (30000, 30000) is 2e8; r^2 = 25e6; so the potential is
    // 25e6 * 1e6 / 2e8 = 125000 (an eighth of the iso-threshold)
    let balls = one_ball(30_000, 30_000, 5_000);
    assert_eq!(compute_force(&mut lat, &balls, 1, 2, 2), 125_000);
    assert_eq!(compute_force(&mut lat, &balls, -1, 2, 2), -125_000);
}

#[test]
fn potentials_of_several_balls_add_up() {
    let mut lat = Lattice::new(100_000, 100_000);
    let balls = vec![
        Ball::with_state(30_000, 30_000, 0, 0, 5_000, 100_000, 100_000),
        Ball::with_state(10_000, 20_000, 0, 0, 5_000, 100_000, 100_000),
    ];
    // second ball: squared distance to (20000, 20000) is 1e8, so its
    // term is 25e6 * 1e6 / 1e8 = 250000
    assert_eq!(compute_force(&mut lat, &balls, 1, 2, 2), 125_000 + 250_000);
}

#[test]
fn ball_on_a_node_gets_the_epsilon_floor() {
    let mut lat = Lattice::new(100_000, 100_000);
    // the degenerate case: the ball centre coincides with node (5,5);
    // the denominator is floored at (0.1 px)^2 = 10000 instead of 0
    let balls = one_ball(50_000, 50_000, 5_000);
    let f = compute_force(&mut lat, &balls, 1, 5, 5);
    assert_eq!(f, 25_000_000i64 * 1_000_000 / 10_000);
    assert!(f > 1_000_000);
}

#[test]
fn caching_is_idempotent_within_a_frame() {
    let mut lat = Lattice::new(100_000, 100_000);
    let balls = one_ball(50_000, 50_000, 5_000);
    let first = sample_force(&mut lat, &balls, 1, 5, 5);
    let second = sample_force(&mut lat, &balls, 1, 5, 5);
    let third = sample_force(&mut lat, &balls, 1, 5, 5);
    assert_eq!(first, second);
    assert_eq!(second, third);
}

#[test]
fn sign_flip_invalidates_the_cache() {
    let mut lat = Lattice::new(100_000, 100_000);
    let balls = one_ball(50_000, 50_000, 5_000);
    let plus = sample_force(&mut lat, &balls, 1, 4, 4);
    let minus = sample_force(&mut lat, &balls, -1, 4, 4);
    assert_eq!(plus, -minus);
    assert!(plus > 0);
}

#[test]
fn stale_value_of_matching_sign_is_reused() {
    let mut lat = Lattice::new(100_000, 100_000);
    let near = one_ball(50_000, 50_000, 5_000);
    let far = one_ball(20_000, 20_000, 5_000);
    let cached = sample_force(&mut lat, &near, 1, 5, 5);
    // the ball set changed, but the cached value still carries the
    // frame's sign convention, so it is reused as is
    let reused = sample_force(&mut lat, &far, 1, 5, 5);
    assert_eq!(cached, reused);
    // a recomputation (after a sign flip) sees the new field
    let fresh = sample_force(&mut lat, &far, -1, 5, 5);
    assert_ne!(-fresh, cached);
}
