use metaball::ball::Ball;
use metaball::lamp::{ConfigError, LavaLamp};
use metaball::lattice::Lattice;
use metaball::tracer::{marching_squares, trace_contour, Dir, StepResult};

fn ball(px: i64, py: i64, r: i64, w: i64, h: i64) -> Ball {
    Ball::with_state(px, py, 0, 0, r, w, h)
}

fn lamp_100(balls: Vec<Ball>) -> LavaLamp {
    LavaLamp::with_balls(100, 100, balls, String::from("#112233"), String::from("#445566"))
        .unwrap()
}

#[test]
fn construction_rejects_empty_surface() {
    let r = LavaLamp::new(0, 100, 3, String::new(), String::new());
    assert!(matches!(r, Err(ConfigError::EmptySurface)));
    let r = LavaLamp::new(100, 0, 3, String::new(), String::new());
    assert!(matches!(r, Err(ConfigError::EmptySurface)));
}

#[test]
fn construction_rejects_zero_balls() {
    let r = LavaLamp::new(100, 100, 0, String::new(), String::new());
    assert!(matches!(r, Err(ConfigError::NoBalls)));
    let r = LavaLamp::with_balls(100, 100, vec![], String::new(), String::new());
    assert!(matches!(r, Err(ConfigError::NoBalls)));
}

#[test]
fn lattice_is_sized_with_a_padding_ring() {
    // surface 100 x 100 with step 10: 12 columns, 12 rows, 144 nodes
    let lamp = lamp_100(vec![ball(50_000, 50_000, 5_000, 100_000, 100_000)]);
    assert_eq!(lamp.cols(), 12);
    assert_eq!(lamp.rows(), 12);
    assert_eq!(lamp.node_count(), 144);
}

#[test]
fn one_centred_ball_traces_a_tight_closed_ring() {
    // surface 100 x 100, one ball of radius 5 at (50, 50), no motion:
    // the traced contour has at least 4 points and every point lies
    // within one lattice step of the circle of radius 5
    let mut lamp = lamp_100(vec![ball(50_000, 50_000, 5_000, 100_000, 100_000)]);
    let contours = lamp.render_metaball();
    assert_eq!(contours.len(), 1);
    assert!(contours[0].len() >= 4);
    for p in &contours[0] {
        let dx = p.x - 50_000;
        let dy = p.y - 50_000;
        // | |p - c| - r | < step  <=>  |p - c| < 15000 here
        assert!(dx * dx + dy * dy < 15_000 * 15_000);
        assert!(dx * dx + dy * dy > 0);
    }
}

#[test]
fn centred_ball_contour_has_the_exact_interpolated_points() {
    let mut lamp = lamp_100(vec![ball(50_000, 50_000, 5_000, 100_000, 100_000)]);
    let contours = lamp.render_metaball();
    let pts: Vec<(i64, i64)> = contours[0].iter().map(|p| (p.x, p.y)).collect();
    assert_eq!(
        pts,
        vec![(50_000, 59_997), (40_003, 50_000), (50_000, 40_003), (59_997, 50_000)]
    );
}

#[test]
fn two_far_balls_trace_two_disjoint_contours() {
    // separation 70 px, more than four times the radius of 5 px
    let mut lamp = lamp_100(vec![
        ball(25_000, 25_000, 5_000, 100_000, 100_000),
        ball(75_000, 75_000, 5_000, 100_000, 100_000),
    ]);
    let contours = lamp.render_metaball();
    assert_eq!(contours.len(), 2);
    for c in &contours {
        assert!(c.len() >= 4);
    }
    for p in &contours[0] {
        assert!(!contours[1].iter().any(|q| q.x == p.x && q.y == p.y));
    }
}

#[test]
fn sign_and_iteration_alternate_every_frame() {
    let mut lamp = lamp_100(vec![ball(50_000, 50_000, 5_000, 100_000, 100_000)]);
    assert_eq!(lamp.sign(), 1);
    assert_eq!(lamp.iteration(), 0);
    lamp.render_metaball();
    assert_eq!(lamp.sign(), -1);
    assert_eq!(lamp.iteration(), 1);
    lamp.render_metaball();
    assert_eq!(lamp.sign(), 1);
    assert_eq!(lamp.iteration(), 2);
}

#[test]
fn rendering_twice_keeps_tracing_the_static_ball() {
    let mut lamp = lamp_100(vec![ball(50_000, 50_000, 5_000, 100_000, 100_000)]);
    let first = lamp.render_metaball();
    let second = lamp.render_metaball();
    assert_eq!(first.len(), 1);
    assert_eq!(second.len(), 1);
    assert!(second[0].len() >= 4);
}

#[test]
fn all_inside_cell_restarts_one_row_up() {
    let mut lat = Lattice::new(100_000, 100_000);
    // radius 9 around (55, 55): all four corners of cell (5,5) are
    // within 9 px of the centre, so the mask is 15
    let balls = vec![ball(55_000, 55_000, 9_000, 100_000, 100_000)];
    let r = marching_squares(&mut lat, &balls, -1, 1, 5, 5, None);
    assert_eq!(r, StepResult::Restart { x: 5, y: 4 });
}

#[test]
fn saddle_mask_resolves_by_the_incoming_direction() {
    // two diagonal balls make corners (5,5) and (6,6) of cell (5,5)
    // inside and the other two outside: the ambiguous mask 5
    let balls = vec![
        ball(50_000, 50_000, 5_000, 100_000, 100_000),
        ball(60_000, 60_000, 5_000, 100_000, 100_000),
    ];
    // with no incoming direction the tie-break walks right
    let mut lat = Lattice::new(100_000, 100_000);
    let r = marching_squares(&mut lat, &balls, -1, 1, 5, 5, None);
    match r {
        StepResult::Advance { x, y, dir, point } => {
            assert_eq!(dir, Dir::Right);
            assert_eq!((x, y), (6, 5));
            assert_eq!((point.x, point.y), (60_000, 50_002));
        },
        other => panic!("expected an advance, got {:?}", other),
    }
    // coming in downward the same cell walks left instead
    let mut lat = Lattice::new(100_000, 100_000);
    let r = marching_squares(&mut lat, &balls, -1, 1, 5, 5, Some(Dir::Down));
    match r {
        StepResult::Advance { x, y, dir, point } => {
            assert_eq!(dir, Dir::Left);
            assert_eq!((x, y), (4, 5));
            assert_eq!((point.x, point.y), (50_000, 59_998));
        },
        other => panic!("expected an advance, got {:?}", other),
    }
}

#[test]
fn interpolation_weights_by_threshold_distance() {
    // endpoints 2.5 and 0.25 iso-units: distances from the threshold
    // are 1.5e6 and 0.75e6, so the offset from the second endpoint is
    // 10000 * 0.75e6 / 2.25e6 = 3333 subpixels
    assert_eq!(metaball::tracer::interp(2_500_000, 250_000), 3_333);
    // an endpoint exactly at the threshold pins the crossing to it
    assert_eq!(metaball::tracer::interp(2_500_000, 1_000_000), 0);
    assert_eq!(metaball::tracer::interp(1_000_000, 250_000), 10_000);
    // both at the threshold: offset zero by the documented policy
    assert_eq!(metaball::tracer::interp(1_000_000, -1_000_000), 0);
}

#[test]
fn walk_closes_on_a_node_already_stamped_this_frame() {
    let mut lat = Lattice::new(100_000, 100_000);
    let balls = vec![ball(50_000, 50_000, 5_000, 100_000, 100_000)];
    // a fresh lattice carries generation 0 on every node, so a frame
    // counter of 0 closes immediately; the driver starts at 1
    let r = marching_squares(&mut lat, &balls, -1, 0, 5, 5, None);
    assert_eq!(r, StepResult::Closed);
}

#[test]
fn step_emits_a_point_and_advances_by_one_cell() {
    let mut lat = Lattice::new(100_000, 100_000);
    let balls = vec![ball(50_000, 50_000, 5_000, 100_000, 100_000)];
    let r = marching_squares(&mut lat, &balls, -1, 1, 5, 5, None);
    match r {
        StepResult::Advance { x, y, dir, point } => {
            // only corner (5,5) is inside: mask 1 walks left along the
            // top edge of the cell below
            assert_eq!(dir, Dir::Left);
            assert_eq!((x, y), (4, 5));
            assert_eq!((point.x, point.y), (50_000, 59_997));
        },
        other => panic!("expected an advance, got {:?}", other),
    }
}

#[test]
fn trace_returns_none_when_nothing_is_emitted() {
    let mut lat = Lattice::new(100_000, 100_000);
    let balls = vec![ball(50_000, 50_000, 5_000, 100_000, 100_000)];
    // seeding on a node already stamped for this frame closes at once
    let first = trace_contour(&mut lat, &balls, -1, 1, 5, 5);
    assert!(first.is_some());
    let again = trace_contour(&mut lat, &balls, -1, 1, 5, 5);
    assert!(again.is_none());
}

#[test]
fn randomised_lamp_is_well_formed() {
    let lamp = LavaLamp::new(800, 600, 5, String::from("red"), String::from("blue")).unwrap();
    assert_eq!(lamp.ball_count(), 5);
    assert_eq!(lamp.iteration(), 0);
    assert_eq!(lamp.sign(), 1);
    assert_eq!(lamp.cols(), 82);
    assert_eq!(lamp.rows(), 62);
    assert_eq!(lamp.color0().as_str(), "red");
    assert_eq!(lamp.color1().as_str(), "blue");
    let w = lamp.width();
    let h = lamp.height();
    for i in 0..lamp.ball_count() {
        let b = lamp.ball(i);
        // position in the central 60%, radius scaled to the smaller side
        assert!(b.position.x >= w / 5 && b.position.x < w * 4 / 5);
        assert!(b.position.y >= h / 5 && b.position.y < h * 4 / 5);
        assert!(b.radius >= h / 15 && b.radius < 2 * (h / 15));
        assert!(b.velocity.x.abs() >= 200 && b.velocity.x.abs() < 450);
        assert!(b.velocity.y.abs() >= 200 && b.velocity.y.abs() < 1200);
    }
}

#[test]
fn randomised_lamp_renders_bounded_contours() {
    let mut lamp = LavaLamp::new(320, 240, 4, String::new(), String::new()).unwrap();
    for _ in 0..8 {
        let contours = lamp.render_metaball();
        assert!(contours.len() <= 4);
        for c in &contours {
            assert!(!c.is_empty());
            for p in c {
                assert!(p.x >= -10_000 && p.x <= 340_000);
                assert!(p.y >= -10_000 && p.y <= 260_000);
            }
        }
    }
}
