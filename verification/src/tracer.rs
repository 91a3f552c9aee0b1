//! The contour tracer: a marching-squares walker over the lattice.

use crate::ball::Ball;
use crate::field::{
    after_sample, balls_ok, cached_sample, field_force, grid_index, lemma_force_dims,
    sample_force, sample_val, spec_force,
};
use crate::fixed::{abs_i, FORCE_LIMIT, FSCALE, STEP};
use crate::lattice::{clamp_coord, Lattice};
use crate::point::PathPoint;
use vstd::arithmetic::div_mod::{
    lemma_div_is_ordered, lemma_div_multiples_vanish, lemma_div_pos_is_pos,
    lemma_fundamental_div_mod_converse,
};
use vstd::prelude::*;

verus! {

/// A traversal direction of the marching-squares walk.
#[derive(Clone, Copy, Debug, PartialEq, Eq, Structural)]
pub enum Dir {
    Up,
    Right,
    Down,
    Left,
}

/// The outcome of one marching-squares step.
#[derive(Clone, Copy, Debug, PartialEq, Eq, Structural)]
pub enum StepResult {
    /// The walk re-entered a node already finalised this frame: the
    /// points emitted since the seed form one closed contour.
    Closed,
    /// All four corner samples were inside (case 15): restart the walk
    /// one lattice row up, with no incoming direction and no point
    /// emitted.
    Restart { x: i64, y: i64 },
    /// A crossing point was emitted; the walk continues at `(x, y)`
    /// with incoming direction `dir`.
    Advance { x: i64, y: i64, dir: Dir, point: PathPoint },
}

/// Whether a sampled potential sets its mask bit: strictly beyond the
/// iso-threshold in magnitude.
pub open spec fn mask_bit(f: int) -> bool {
    abs_i(f) > FSCALE
}

/// The cached potential at grid coordinate `(gx, gy)` (clamped).
pub open spec fn force_at(lat: Lattice, gx: int, gy: int) -> int {
    lat.nodes@[lat.spec_index(gx, gy)].force as int
}

/// The subpixel coordinate of grid line `g` on an axis of `n` lines,
/// clamped into range.
pub open spec fn node_px(n: int, g: int) -> int {
    clamp_coord(g, n) * STEP
}

/// The x subpixel coordinate of the (clamped) node at `(gx, gy)`.
pub open spec fn node_sx(lat: Lattice, gx: int) -> int {
    node_px(lat.cols as int, gx)
}

/// The y subpixel coordinate of the (clamped) node at `(gx, gy)`.
pub open spec fn node_sy(lat: Lattice, gy: int) -> int {
    node_px(lat.rows as int, gy)
}

/// The 4-bit case mask at cell `(x, y)`, read from the cached corner
/// potentials of `lat`: the cell-diagonal neighbours `(0,0), (1,0),
/// (1,1), (0,1)` carry bits 1, 2, 4 and 8.
pub open spec fn spec_mask(lat: Lattice, x: int, y: int) -> int {
    cell_mask(lat.cols as int, lat.rows as int, lat.nodes@, x, y)
}

/// The traversal direction the 15-entry case table owes a mask
/// (masks 5 and 10 are the ambiguous saddles, resolved elsewhere).
pub open spec fn table_dir(mask: int) -> Dir {
    if mask == 4 || mask == 12 || mask == 13 {
        Dir::Right
    } else if mask == 8 || mask == 9 || mask == 11 {
        Dir::Down
    } else if mask == 1 || mask == 3 || mask == 7 {
        Dir::Left
    } else {
        Dir::Up
    }
}

/// Resolves a mask to a traversal direction; the two saddle masks use
/// the incoming direction as the tie-break that keeps the path
/// consistent.
pub open spec fn case_dir(mask: int, incoming: Dir) -> Dir {
    if mask == 5 {
        if incoming == Dir::Down {
            Dir::Left
        } else {
            Dir::Right
        }
    } else if mask == 10 {
        if incoming == Dir::Left {
            Dir::Up
        } else {
            Dir::Down
        }
    } else {
        table_dir(mask)
    }
}

/// The incoming direction used for saddle resolution: a walk with no
/// incoming direction resolves as if it came in going up.
pub open spec fn incoming_or_up(d: Option<Dir>) -> Dir {
    match d {
        Option::Some(dir) => dir,
        Option::None => Dir::Up,
    }
}

/// The x offset of one walk step in direction `d`.
pub open spec fn dir_dx(d: Dir) -> int {
    match d {
        Dir::Up => 0,
        Dir::Right => 1,
        Dir::Down => 0,
        Dir::Left => -1,
    }
}

/// The y offset of one walk step in direction `d`.
pub open spec fn dir_dy(d: Dir) -> int {
    match d {
        Dir::Up => -1,
        Dir::Right => 0,
        Dir::Down => 1,
        Dir::Left => 0,
    }
}

/// The interpolation offset along a lattice edge, by inverse-difference
/// weighting of the two endpoint potentials `fa` and `fb` (distances of
/// their magnitudes from the iso-threshold): `step * B / (A + B)`,
/// measured from the `fb` endpoint. A zero divisor (both endpoints
/// exactly at the threshold) yields offset zero.
pub open spec fn interp_off(fa: int, fb: int) -> int {
    let a = abs_i(abs_i(fa) - FSCALE);
    let b = abs_i(abs_i(fb) - FSCALE);
    if a + b == 0 {
        0
    } else {
        STEP * b / (a + b)
    }
}

/// The crossing point emitted when the walk leaves cell `(x, y)` in
/// direction `d`, as `(x, y)` subpixel coordinates: the interpolation
/// offset is applied from the `fb` corner of the crossed edge towards
/// the `fa` corner.
pub open spec fn emit_point(lat: Lattice, x: int, y: int, d: Dir) -> (int, int) {
    crossing_point(lat.cols as int, lat.rows as int, lat.nodes@, x, y, d)
}

/// The node sequence after the four corner potentials of cell `(x, y)`
/// have been sampled through the cache, in mask-bit order.
pub open spec fn after_corners(
    cols: int,
    rows: int,
    nodes: Seq<crate::lattice::LatticeNode>,
    balls: Seq<Ball>,
    sign: int,
    x: int,
    y: int,
) -> Seq<crate::lattice::LatticeNode> {
    let n1 = after_sample(cols, rows, nodes, balls, sign, x, y);
    let n2 = after_sample(cols, rows, n1, balls, sign, x + 1, y);
    let n3 = after_sample(cols, rows, n2, balls, sign, x + 1, y + 1);
    after_sample(cols, rows, n3, balls, sign, x, y + 1)
}

/// The 4-bit case mask of cell `(x, y)` over a node sequence.
pub open spec fn cell_mask(
    cols: int,
    rows: int,
    nodes: Seq<crate::lattice::LatticeNode>,
    x: int,
    y: int,
) -> int {
    (if mask_bit(nodes[grid_index(cols, rows, x, y)].force as int) {
        1int
    } else {
        0int
    }) + (if mask_bit(nodes[grid_index(cols, rows, x + 1, y)].force as int) {
        2int
    } else {
        0int
    }) + (if mask_bit(nodes[grid_index(cols, rows, x + 1, y + 1)].force as int) {
        4int
    } else {
        0int
    }) + (if mask_bit(nodes[grid_index(cols, rows, x, y + 1)].force as int) {
        8int
    } else {
        0int
    })
}

/// The crossing point emitted when the walk leaves cell `(x, y)` in
/// direction `d`, interpolated over the corner potentials in `nodes`.
pub open spec fn crossing_point(
    cols: int,
    rows: int,
    nodes: Seq<crate::lattice::LatticeNode>,
    x: int,
    y: int,
    d: Dir,
) -> (int, int) {
    let f00 = nodes[grid_index(cols, rows, x, y)].force as int;
    let f10 = nodes[grid_index(cols, rows, x + 1, y)].force as int;
    let f11 = nodes[grid_index(cols, rows, x + 1, y + 1)].force as int;
    let f01 = nodes[grid_index(cols, rows, x, y + 1)].force as int;
    match d {
        Dir::Up => (node_px(cols, x) + interp_off(f10, f00), node_px(rows, y)),
        Dir::Right => (node_px(cols, x + 1), node_px(rows, y) + interp_off(f11, f10)),
        Dir::Down => (node_px(cols, x + 1) - interp_off(f01, f11), node_px(rows, y + 1)),
        Dir::Left => (node_px(cols, x), node_px(rows, y + 1) - interp_off(f00, f01)),
    }
}

/// One step of the marching-squares walk, as a function of the grid
/// dimensions, the node sequence and the walk position: the outcome
/// and the node sequence it leaves behind. The executable step is
/// proved equal to this function.
pub open spec fn spec_step(
    cols: int,
    rows: int,
    nodes: Seq<crate::lattice::LatticeNode>,
    balls: Seq<Ball>,
    sign: int,
    iteration: u64,
    x: int,
    y: int,
    incoming: Option<Dir>,
) -> (StepResult, Seq<crate::lattice::LatticeNode>) {
    let idx = grid_index(cols, rows, x, y);
    if nodes[idx].computed_generation == iteration {
        (StepResult::Closed, nodes)
    } else {
        let n4 = after_corners(cols, rows, nodes, balls, sign, x, y);
        let m = cell_mask(cols, rows, n4, x, y);
        if m == 15 {
            ((StepResult::Restart { x: x as i64, y: (y - 1) as i64 }), n4)
        } else {
            let dir = case_dir(m, incoming_or_up(incoming));
            let n5 = if m == 5 || m == 10 {
                n4
            } else {
                n4.update(
                    idx,
                    crate::lattice::LatticeNode { computed_generation: iteration, ..n4[idx] },
                )
            };
            let pt = crossing_point(cols, rows, n4, x, y, dir);
            (
                (StepResult::Advance {
                    x: (x + dir_dx(dir)) as i64,
                    y: (y + dir_dy(dir)) as i64,
                    dir,
                    point: PathPoint { x: pt.0 as i64, y: pt.1 as i64 },
                }),
                n5,
            )
        }
    }
}

/// Folds a walk coordinate back to at most one node past the ring,
/// which addresses the same clamped node.
pub open spec fn fold_coord(c: int, n: int) -> int {
    if c < -1 {
        -1
    } else if c > n {
        n
    } else {
        c
    }
}

/// The whole contour walk, as a function of the starting state: the
/// points of the closed contour (`None` when the walk closed without
/// emitting anything or the fuel ran out) and the node sequence left
/// behind. The executable walk is proved equal to this function.
pub open spec fn spec_walk(
    cols: int,
    rows: int,
    nodes: Seq<crate::lattice::LatticeNode>,
    balls: Seq<Ball>,
    sign: int,
    iteration: u64,
    x: int,
    y: int,
    incoming: Option<Dir>,
    acc: Seq<PathPoint>,
    fuel: nat,
) -> (Option<Seq<PathPoint>>, Seq<crate::lattice::LatticeNode>)
    decreases fuel,
{
    if fuel == 0 {
        (Option::None, nodes)
    } else {
        let sr = spec_step(cols, rows, nodes, balls, sign, iteration, x, y, incoming);
        match sr.0 {
            StepResult::Closed => (
                if acc.len() > 0 {
                    Option::Some(acc)
                } else {
                    Option::None
                },
                sr.1,
            ),
            StepResult::Restart { x: x2, y: y2 } => spec_walk(
                cols,
                rows,
                sr.1,
                balls,
                sign,
                iteration,
                fold_coord(x2 as int, cols),
                fold_coord(y2 as int, rows),
                Option::None,
                acc,
                (fuel - 1) as nat,
            ),
            StepResult::Advance { x: x2, y: y2, dir, point } => spec_walk(
                cols,
                rows,
                sr.1,
                balls,
                sign,
                iteration,
                fold_coord(x2 as int, cols),
                fold_coord(y2 as int, rows),
                Option::Some(dir),
                acc.push(point),
                (fuel - 1) as nat,
            ),
        }
    }
}

/// The padding-ring potential (0.6 in iso-units) never reaches the
/// threshold: a boundary node on its own never sets a mask bit,
/// whatever the current sign convention, so no contour can arise from
/// the ring alone.
pub proof fn lemma_boundary_below_threshold(sign: int)
    requires
        sign == 1 || sign == -1,
    ensures
        !mask_bit(crate::fixed::BOUNDARY_FORCE * sign),
{
}

/// The interpolation offset stays on its edge: between 0 and one
/// lattice step.
pub proof fn lemma_interp_bounds(fa: int, fb: int)
    ensures
        0 <= interp_off(fa, fb) <= STEP,
{
    let a = abs_i(abs_i(fa) - FSCALE);
    let b = abs_i(abs_i(fb) - FSCALE);
    if a + b == 0 {
    } else {
        lemma_div_pos_is_pos(STEP * b, a + b);
        assert(STEP * b <= STEP * (a + b)) by (nonlinear_arith)
            requires
                0 <= b,
                0 <= a,
        ;
        lemma_div_is_ordered(STEP * b, STEP * (a + b), a + b);
        lemma_div_multiples_vanish(STEP as int, a + b);
        assert((a + b) * STEP == STEP * (a + b)) by (nonlinear_arith);
    }
}

/// How far a potential sits from the iso-threshold, in magnitude.
fn iso_dist(f: i64) -> (a: i64)
    requires
        abs_i(f as int) <= FORCE_LIMIT,
    ensures
        a == abs_i(abs_i(f as int) - FSCALE),
        0 <= a <= FORCE_LIMIT + FSCALE,
{
    let m: i64 = if f < 0 {
        -f
    } else {
        f
    };
    if m >= FSCALE {
        m - FSCALE
    } else {
        FSCALE - m
    }
}

/// The interpolation offset along a lattice edge between potentials
/// `fa` and `fb`, in subpixels from the `fb` endpoint.
pub fn interp(fa: i64, fb: i64) -> (off: i64)
    requires
        abs_i(fa as int) <= FORCE_LIMIT,
        abs_i(fb as int) <= FORCE_LIMIT,
    ensures
        off == interp_off(fa as int, fb as int),
        0 <= off <= STEP,
{
    let a: i64 = iso_dist(fa);
    let b: i64 = iso_dist(fb);
    proof {
        lemma_interp_bounds(fa as int, fb as int);
    }
    if a + b == 0 {
        0
    } else {
        let q: u128 = (STEP as u128) * (b as u128) / ((a + b) as u128);
        proof {
            assert((STEP as u128) as int * (b as u128) as int == STEP * (b as int))
                by (nonlinear_arith)
                requires
                    (STEP as u128) as int == STEP as int,
                    (b as u128) as int == b as int,
            ;
        }
        q as i64
    }
}

/// Equal clamped indices mean equal clamped coordinates, hence the
/// same addressed node, the same boundary classification and the same
/// computed potential.
pub proof fn lemma_index_injective(
    lat: Lattice,
    balls: Seq<Ball>,
    sign: int,
    gx: int,
    gy: int,
    gx2: int,
    gy2: int,
)
    requires
        lat.wf(),
        lat.spec_index(gx, gy) == lat.spec_index(gx2, gy2),
    ensures
        clamp_coord(gx, lat.cols as int) == clamp_coord(gx2, lat.cols as int),
        clamp_coord(gy, lat.rows as int) == clamp_coord(gy2, lat.rows as int),
        spec_force(lat, balls, sign, gx, gy) == spec_force(lat, balls, sign, gx2, gy2),
{
    let c = lat.cols as int;
    let r = lat.rows as int;
    let cx = clamp_coord(gx, c);
    let cy = clamp_coord(gy, r);
    let cx2 = clamp_coord(gx2, c);
    let cy2 = clamp_coord(gy2, r);
    assert(cx == cx2 && cy == cy2) by (nonlinear_arith)
        requires
            cy * c + cx == cy2 * c + cx2,
            0 <= cx < c,
            0 <= cx2 < c,
            0 <= cy < r,
            0 <= cy2 < r,
    ;
}

/// A well-formed lattice stores at `spec_index(gx, gy)` exactly the
/// clamped coordinates times the step.
pub proof fn lemma_node_coords(lat: Lattice, gx: int, gy: int)
    requires
        lat.wf(),
    ensures
        0 <= lat.spec_index(gx, gy) < lat.nodes@.len(),
        lat.nodes@[lat.spec_index(gx, gy)].x == node_sx(lat, gx),
        lat.nodes@[lat.spec_index(gx, gy)].y == node_sy(lat, gy),
{
    let c = lat.cols as int;
    let r = lat.rows as int;
    let cx = clamp_coord(gx, c);
    let cy = clamp_coord(gy, r);
    let idx = cy * c + cx;
    assert(0 <= idx && idx < r * c) by (nonlinear_arith)
        requires
            idx == cy * c + cx,
            0 <= cx < c,
            0 <= cy < r,
    ;
    assert(lat.nodes@.len() == c * r && r * c == c * r) by (nonlinear_arith)
        requires
            lat.nodes@.len() == (lat.cols as int) * (lat.rows as int),
            c == lat.cols as int,
            r == lat.rows as int,
    ;
    lemma_fundamental_div_mod_converse(idx, c, cy, cx);
    assert(lat.nodes@[idx].x == (idx % c) * STEP);
    assert(lat.nodes@[idx].y == (idx / c) * STEP);
}

/// Samples the four corner potentials of cell `(x, y)` through the
/// cache, in mask-bit order `(0,0), (1,0), (1,1), (0,1)`.
///
/// Each returned value is the cache-or-computed potential of the
/// pre-state: when clamping makes two corners address the same node,
/// resampling that node returns the value the first sample left there.
#[verifier::spinoff_prover]
#[verifier::rlimit(100)]
fn sample_corners(lat: &mut Lattice, balls: &Vec<Ball>, sign: i64, x: i64, y: i64) -> (f: (
    i64,
    i64,
    i64,
    i64,
))
    requires
        old(lat).wf(),
        balls_ok(balls@),
        sign == 1 || sign == -1,
        -1_000_000 <= x <= 1_000_000,
        -1_000_000 <= y <= 1_000_000,
    ensures
        final(lat).wf(),
        final(lat).step == old(lat).step,
        final(lat).cols == old(lat).cols,
        final(lat).rows == old(lat).rows,
        final(lat).nodes@.len() == old(lat).nodes@.len(),
        f.0 == sample_val(
            force_at(*old(lat), x as int, y as int),
            spec_force(*old(lat), balls@, sign as int, x as int, y as int),
            sign as int,
        ),
        f.1 == sample_val(
            force_at(*old(lat), x as int + 1, y as int),
            spec_force(*old(lat), balls@, sign as int, x as int + 1, y as int),
            sign as int,
        ),
        f.2 == sample_val(
            force_at(*old(lat), x as int + 1, y as int + 1),
            spec_force(*old(lat), balls@, sign as int, x as int + 1, y as int + 1),
            sign as int,
        ),
        f.3 == sample_val(
            force_at(*old(lat), x as int, y as int + 1),
            spec_force(*old(lat), balls@, sign as int, x as int, y as int + 1),
            sign as int,
        ),
        force_at(*final(lat), x as int, y as int) == f.0,
        force_at(*final(lat), x as int + 1, y as int) == f.1,
        force_at(*final(lat), x as int + 1, y as int + 1) == f.2,
        force_at(*final(lat), x as int, y as int + 1) == f.3,
        abs_i(f.0 as int) <= FORCE_LIMIT,
        abs_i(f.1 as int) <= FORCE_LIMIT,
        abs_i(f.2 as int) <= FORCE_LIMIT,
        abs_i(f.3 as int) <= FORCE_LIMIT,
        final(lat).nodes@ == after_corners(
            old(lat).cols as int,
            old(lat).rows as int,
            old(lat).nodes@,
            balls@,
            sign as int,
            x as int,
            y as int,
        ),
        forall|j: int|
            0 <= j < old(lat).nodes@.len() ==> {
                &&& (#[trigger] final(lat).nodes@[j]).x == old(lat).nodes@[j].x
                &&& final(lat).nodes@[j].y == old(lat).nodes@[j].y
                &&& final(lat).nodes@[j].magnitude == old(lat).nodes@[j].magnitude
                &&& final(lat).nodes@[j].computed_generation == old(
                    lat,
                ).nodes@[j].computed_generation
            },
        forall|j: int|
            0 <= j < old(lat).nodes@.len()
                && j != old(lat).spec_index(x as int, y as int)
                && j != old(lat).spec_index(x as int + 1, y as int)
                && j != old(lat).spec_index(x as int + 1, y as int + 1)
                && j != old(lat).spec_index(x as int, y as int + 1)
                ==> (#[trigger] final(lat).nodes@[j]).force == old(lat).nodes@[j].force,
{
    let ghost l0 = *lat;
    let ghost s = sign as int;
    let ghost g0 = l0.spec_index(x as int, y as int);
    let ghost g1 = l0.spec_index(x as int + 1, y as int);
    let ghost g2 = l0.spec_index(x as int + 1, y as int + 1);
    let ghost g3 = l0.spec_index(x as int, y as int + 1);
    let ghost ff0 = spec_force(l0, balls@, s, x as int, y as int);
    let ghost ff1 = spec_force(l0, balls@, s, x as int + 1, y as int);
    let ghost ff2 = spec_force(l0, balls@, s, x as int + 1, y as int + 1);
    let ghost ff3 = spec_force(l0, balls@, s, x as int, y as int + 1);

    let f0 = sample_force(lat, balls, sign, x, y);
    let ghost l1 = *lat;
    let f1 = sample_force(lat, balls, sign, x + 1, y);
    let ghost l2 = *lat;
    let f2 = sample_force(lat, balls, sign, x + 1, y + 1);
    let ghost l3 = *lat;
    let f3 = sample_force(lat, balls, sign, x, y + 1);
    let ghost l4 = *lat;

    proof {
        lemma_node_coords(l0, x as int, y as int);
        lemma_node_coords(l0, x as int + 1, y as int);
        lemma_node_coords(l0, x as int + 1, y as int + 1);
        lemma_node_coords(l0, x as int, y as int + 1);
        assert(spec_force(l1, balls@, s, x as int + 1, y as int) == ff1);
        assert(spec_force(l2, balls@, s, x as int + 1, y as int + 1) == ff2);
        assert(spec_force(l3, balls@, s, x as int, y as int + 1) == ff3);
        assert(f0 == sample_val(l0.nodes@[g0].force as int, ff0, s));
        // Corner 1: either a fresh node, or the same clamped node as
        // corner 0, in which case resampling returns the same value.
        if g1 == g0 {
            lemma_index_injective(l0, balls@, s, x as int + 1, y as int, x as int, y as int);
            assert(ff1 == ff0);
            assert(f1 == f0);
        }
        assert(f1 == sample_val(l0.nodes@[g1].force as int, ff1, s));
        assert(l2.nodes@[g0].force == f0 && l2.nodes@[g1].force == f1);
        if g2 == g0 {
            lemma_index_injective(l0, balls@, s, x as int + 1, y as int + 1, x as int, y as int);
            assert(ff2 == ff0);
            assert(f2 == f0);
        } else if g2 == g1 {
            lemma_index_injective(
                l0,
                balls@,
                s,
                x as int + 1,
                y as int + 1,
                x as int + 1,
                y as int,
            );
            assert(ff2 == ff1);
            assert(f2 == f1);
        }
        assert(f2 == sample_val(l0.nodes@[g2].force as int, ff2, s));
        assert(l3.nodes@[g0].force == f0 && l3.nodes@[g1].force == f1 && l3.nodes@[g2].force
            == f2);
        if g3 == g0 {
            lemma_index_injective(l0, balls@, s, x as int, y as int + 1, x as int, y as int);
            assert(ff3 == ff0);
            assert(f3 == f0);
        } else if g3 == g1 {
            lemma_index_injective(l0, balls@, s, x as int, y as int + 1, x as int + 1, y as int);
            assert(ff3 == ff1);
            assert(f3 == f1);
        } else if g3 == g2 {
            lemma_index_injective(
                l0,
                balls@,
                s,
                x as int,
                y as int + 1,
                x as int + 1,
                y as int + 1,
            );
            assert(ff3 == ff2);
            assert(f3 == f2);
        }
        assert(f3 == sample_val(l0.nodes@[g3].force as int, ff3, s));
        assert(l4.nodes@[g0].force == f0 && l4.nodes@[g1].force == f1 && l4.nodes@[g2].force
            == f2 && l4.nodes@[g3].force == f3);
        // The four cache-aware samples, replayed on the node sequence.
        let c = l0.cols as int;
        let r = l0.rows as int;
        lemma_force_dims(l0, balls@, s, x as int, y as int);
        lemma_force_dims(l1, balls@, s, x as int + 1, y as int);
        lemma_force_dims(l2, balls@, s, x as int + 1, y as int + 1);
        lemma_force_dims(l3, balls@, s, x as int, y as int + 1);
        assert(l1.nodes@ == after_sample(c, r, l0.nodes@, balls@, s, x as int, y as int));
        assert(l2.nodes@ == after_sample(c, r, l1.nodes@, balls@, s, x as int + 1, y as int));
        assert(l3.nodes@ == after_sample(c, r, l2.nodes@, balls@, s, x as int + 1, y as int + 1));
        assert(l4.nodes@ == after_sample(c, r, l3.nodes@, balls@, s, x as int, y as int + 1));
        assert(l4.nodes@ == after_corners(c, r, l0.nodes@, balls@, s, x as int, y as int));
    }
    (f0, f1, f2, f3)
}

/// One step of the marching-squares walk at cell `(x, y)`.
///
/// Unless the addressed node was already finalised this frame, the
/// four diagonal-offset corner potentials are sampled through the
/// cache, the 4-bit case mask resolves to a traversal direction (the
/// saddles via the incoming direction), the crossing point on the
/// departed edge is interpolated and the node is stamped with the
/// current generation (saddles and the all-inside restart leave the
/// stamp alone, so the walk may pass them again).
#[verifier::spinoff_prover]
#[verifier::rlimit(100)]
pub fn marching_squares(
    lat: &mut Lattice,
    balls: &Vec<Ball>,
    sign: i64,
    iteration: u64,
    x: i64,
    y: i64,
    incoming: Option<Dir>,
) -> (r: StepResult)
    requires
        old(lat).wf(),
        balls_ok(balls@),
        sign == 1 || sign == -1,
        -1_000_000 <= x <= 1_000_000,
        -1_000_000 <= y <= 1_000_000,
    ensures
        final(lat).wf(),
        final(lat).step == old(lat).step,
        final(lat).cols == old(lat).cols,
        final(lat).rows == old(lat).rows,
        final(lat).nodes@.len() == old(lat).nodes@.len(),
        (r == StepResult::Closed) <==> (old(lat).nodes@[old(lat).spec_index(
            x as int,
            y as int,
        )].computed_generation == iteration),
        r == StepResult::Closed ==> final(lat).nodes@ == old(lat).nodes@,
        forall|j: int|
            0 <= j < old(lat).nodes@.len() ==> {
                &&& (#[trigger] final(lat).nodes@[j]).x == old(lat).nodes@[j].x
                &&& final(lat).nodes@[j].y == old(lat).nodes@[j].y
                &&& final(lat).nodes@[j].magnitude == old(lat).nodes@[j].magnitude
            },
        forall|j: int|
            0 <= j < old(lat).nodes@.len() && j != old(lat).spec_index(x as int, y as int) ==> (
            #[trigger] final(lat).nodes@[j]).computed_generation
                == old(lat).nodes@[j].computed_generation,
        r != StepResult::Closed ==> {
            &&& force_at(*final(lat), x as int, y as int) == sample_val(
                force_at(*old(lat), x as int, y as int),
                spec_force(*old(lat), balls@, sign as int, x as int, y as int),
                sign as int,
            )
            &&& force_at(*final(lat), x as int + 1, y as int) == sample_val(
                force_at(*old(lat), x as int + 1, y as int),
                spec_force(*old(lat), balls@, sign as int, x as int + 1, y as int),
                sign as int,
            )
            &&& force_at(*final(lat), x as int + 1, y as int + 1) == sample_val(
                force_at(*old(lat), x as int + 1, y as int + 1),
                spec_force(*old(lat), balls@, sign as int, x as int + 1, y as int + 1),
                sign as int,
            )
            &&& force_at(*final(lat), x as int, y as int + 1) == sample_val(
                force_at(*old(lat), x as int, y as int + 1),
                spec_force(*old(lat), balls@, sign as int, x as int, y as int + 1),
                sign as int,
            )
        },
        r != StepResult::Closed ==> forall|j: int|
            0 <= j < old(lat).nodes@.len()
                && j != old(lat).spec_index(x as int, y as int)
                && j != old(lat).spec_index(x as int + 1, y as int)
                && j != old(lat).spec_index(x as int + 1, y as int + 1)
                && j != old(lat).spec_index(x as int, y as int + 1)
                ==> (#[trigger] final(lat).nodes@[j]).force == old(lat).nodes@[j].force,
        r != StepResult::Closed ==> ((spec_mask(*final(lat), x as int, y as int) == 15) <==> r
            is Restart),
        r is Restart ==> r->Restart_x == x && r->Restart_y == y - 1
            && final(lat).nodes@[old(lat).spec_index(x as int, y as int)].computed_generation
            == old(lat).nodes@[old(lat).spec_index(x as int, y as int)].computed_generation,
        r is Advance ==> {
            let m = spec_mask(*final(lat), x as int, y as int);
            &&& r->Advance_dir == case_dir(m, incoming_or_up(incoming))
            &&& r->Advance_x == x + dir_dx(r->Advance_dir)
            &&& r->Advance_y == y + dir_dy(r->Advance_dir)
            &&& (r->Advance_point.x as int, r->Advance_point.y as int) == emit_point(
                *final(lat),
                x as int,
                y as int,
                r->Advance_dir,
            )
            &&& -STEP <= r->Advance_point.x <= 8_220_000
            &&& -STEP <= r->Advance_point.y <= 8_220_000
            &&& ((m == 5 || m == 10) ==> final(lat).nodes@[old(lat).spec_index(
                x as int,
                y as int,
            )].computed_generation == old(lat).nodes@[old(lat).spec_index(
                x as int,
                y as int,
            )].computed_generation)
            &&& (!(m == 5 || m == 10) ==> final(lat).nodes@[old(lat).spec_index(
                x as int,
                y as int,
            )].computed_generation == iteration)
        },
        ({
            let sr = spec_step(
                old(lat).cols as int,
                old(lat).rows as int,
                old(lat).nodes@,
                balls@,
                sign as int,
                iteration,
                x as int,
                y as int,
                incoming,
            );
            r == sr.0 && final(lat).nodes@ == sr.1
        }),
{
    let ghost l0 = *lat;
    let ghost cc = l0.cols as int;
    let ghost rr = l0.rows as int;
    let ghost sres = spec_step(
        cc,
        rr,
        l0.nodes@,
        balls@,
        sign as int,
        iteration,
        x as int,
        y as int,
        incoming,
    );
    let idx = lat.index_of(x, y);
    if lat.nodes[idx].computed_generation == iteration {
        proof {
            assert(sres == (StepResult::Closed, l0.nodes@));
        }
        return StepResult::Closed;
    }
    let corners = sample_corners(lat, balls, sign, x, y);
    let f0 = corners.0;
    let f1 = corners.1;
    let f2 = corners.2;
    let f3 = corners.3;
    let ghost l4 = *lat;

    let bit0: bool = f0 > FSCALE || f0 < -FSCALE;
    let bit1: bool = f1 > FSCALE || f1 < -FSCALE;
    let bit2: bool = f2 > FSCALE || f2 < -FSCALE;
    let bit3: bool = f3 > FSCALE || f3 < -FSCALE;
    let mask: u32 = (if bit0 {
        1u32
    } else {
        0u32
    }) + (if bit1 {
        2u32
    } else {
        0u32
    }) + (if bit2 {
        4u32
    } else {
        0u32
    }) + (if bit3 {
        8u32
    } else {
        0u32
    });
    proof {
        assert(mask == spec_mask(l4, x as int, y as int));
        assert(l4.nodes@ == after_corners(cc, rr, l0.nodes@, balls@, sign as int, x as int, y
            as int));
        assert(mask as int == cell_mask(cc, rr, l4.nodes@, x as int, y as int));
    }

    if mask == 15 {
        proof {
            assert(sres == ((StepResult::Restart { x, y: (y - 1) as i64 }), l4.nodes@));
        }
        return StepResult::Restart { x, y: y - 1 };
    }

    let inc: Dir = match incoming {
        Option::Some(d) => d,
        Option::None => Dir::Up,
    };
    let dir: Dir = if mask == 5 {
        if inc == Dir::Down {
            Dir::Left
        } else {
            Dir::Right
        }
    } else if mask == 10 {
        if inc == Dir::Left {
            Dir::Up
        } else {
            Dir::Down
        }
    } else {
        let d = match mask {
            4 | 12 | 13 => Dir::Right,
            8 | 9 | 11 => Dir::Down,
            1 | 3 | 7 => Dir::Left,
            _ => Dir::Up,
        };
        // finalise the node for this frame generation
        let mut node = lat.nodes[idx];
        node.computed_generation = iteration;
        lat.nodes.set(idx, node);
        d
    };
    let ghost l5 = *lat;
    proof {
        assert(dir == case_dir(mask as int, incoming_or_up(incoming)));
        lemma_node_coords(l5, x as int, y as int);
        lemma_node_coords(l5, x as int + 1, y as int);
        lemma_node_coords(l5, x as int, y as int + 1);
        lemma_node_coords(l5, x as int + 1, y as int + 1);
        assert(force_at(l5, x as int, y as int) == f0);
        assert(force_at(l5, x as int + 1, y as int) == f1);
        assert(force_at(l5, x as int + 1, y as int + 1) == f2);
        assert(force_at(l5, x as int, y as int + 1) == f3);
        assert(spec_mask(l5, x as int, y as int) == mask);
    }

    let point: PathPoint;
    let nx_coord: i64;
    let ny_coord: i64;
    match dir {
        Dir::Up => {
            let off = interp(f1, f0);
            let n = lat.nodes[lat.index_of(x, y)];
            point = PathPoint { x: n.x + off, y: n.y };
            nx_coord = x;
            ny_coord = y - 1;
        },
        Dir::Right => {
            let off = interp(f2, f1);
            let n = lat.nodes[lat.index_of(x + 1, y)];
            point = PathPoint { x: n.x, y: n.y + off };
            nx_coord = x + 1;
            ny_coord = y;
        },
        Dir::Down => {
            let off = interp(f3, f2);
            let nx_ = lat.nodes[lat.index_of(x + 1, y)].x;
            let ny_ = lat.nodes[lat.index_of(x + 1, y + 1)].y;
            point = PathPoint { x: nx_ - off, y: ny_ };
            nx_coord = x;
            ny_coord = y + 1;
        },
        Dir::Left => {
            let off = interp(f0, f3);
            let nx_ = lat.nodes[lat.index_of(x, y)].x;
            let ny_ = lat.nodes[lat.index_of(x, y + 1)].y;
            point = PathPoint { x: nx_, y: ny_ - off };
            nx_coord = x - 1;
            ny_coord = y;
        },
    }
    proof {
        assert(lat.nodes@ == sres.1);
        assert(sres.0 == (StepResult::Advance { x: nx_coord, y: ny_coord, dir, point }));
    }
    StepResult::Advance { x: nx_coord, y: ny_coord, dir, point }
}

/// Traces one contour from the given seed cell: marching-squares steps
/// until the walk re-enters a node finalised this frame, which closes
/// the traced polygon. Returns the emitted points (at least one), or
/// `None` when the walk closed without emitting anything or when the
/// safety bound on steps ran out — a walk that never closes has its
/// partial path discarded rather than looping forever.
#[verifier::spinoff_prover]
#[verifier::rlimit(100)]
#[verifier::loop_isolation(false)]
pub fn trace_contour(
    lat: &mut Lattice,
    balls: &Vec<Ball>,
    sign: i64,
    iteration: u64,
    seed_x: i64,
    seed_y: i64,
) -> (path: Option<Vec<PathPoint>>)
    requires
        old(lat).wf(),
        balls_ok(balls@),
        sign == 1 || sign == -1,
        -1000 <= seed_x <= 1000,
        -1000 <= seed_y <= 1000,
    ensures
        final(lat).wf(),
        final(lat).step == old(lat).step,
        final(lat).cols == old(lat).cols,
        final(lat).rows == old(lat).rows,
        final(lat).nodes@.len() == old(lat).nodes@.len(),
        match path {
            Option::Some(p) => p@.len() >= 1 && forall|i: int|
                0 <= i < p@.len() ==> -STEP <= (#[trigger] p@[i]).x <= 8_220_000 && -STEP
                    <= p@[i].y <= 8_220_000,
            Option::None => true,
        },
        ({
            let w = spec_walk(
                old(lat).cols as int,
                old(lat).rows as int,
                old(lat).nodes@,
                balls@,
                sign as int,
                iteration,
                fold_coord(seed_x as int, old(lat).cols as int),
                fold_coord(seed_y as int, old(lat).rows as int),
                Option::None,
                Seq::empty(),
                (4 * (old(lat).cols as int) * (old(lat).rows as int) + 8) as nat,
            );
            &&& final(lat).nodes@ == w.1
            &&& (match path {
                Option::Some(p) => w.0 == Option::Some(p@),
                Option::None => w.0 == Option::<Seq<PathPoint>>::None,
            })
        }),
{
    let ghost l0 = *old(lat);
    let ghost cc = l0.cols as int;
    let ghost rr = l0.rows as int;
    let ghost s = sign as int;
    let mut pts: Vec<PathPoint> = Vec::new();
    // A seed more than one node past the ring addresses the same
    // clamped node as the ring itself, so fold it back.
    let mut cx: i64 = if seed_x < -1 {
        -1
    } else if seed_x > lat.cols as i64 {
        lat.cols as i64
    } else {
        seed_x
    };
    let mut cy: i64 = if seed_y < -1 {
        -1
    } else if seed_y > lat.rows as i64 {
        lat.rows as i64
    } else {
        seed_y
    };
    let mut incoming: Option<Dir> = None;
    proof {
        assert(4 * (lat.cols as int) * (lat.rows as int) <= 4 * 822 * 822) by (nonlinear_arith)
            requires
                2 <= lat.cols as int <= 822,
                2 <= lat.rows as int <= 822,
        ;
    }
    let mut fuel: usize = 4 * lat.cols * lat.rows + 8;
    let ghost target = spec_walk(
        cc,
        rr,
        l0.nodes@,
        balls@,
        s,
        iteration,
        fold_coord(seed_x as int, cc),
        fold_coord(seed_y as int, rr),
        Option::None,
        Seq::empty(),
        (4 * cc * rr + 8) as nat,
    );
    while fuel > 0
        invariant
            lat.wf(),
            balls_ok(balls@),
            sign == 1 || sign == -1,
            lat.step == old(lat).step,
            lat.cols == old(lat).cols,
            lat.rows == old(lat).rows,
            lat.nodes@.len() == old(lat).nodes@.len(),
            -2 <= cx <= 823,
            -2 <= cy <= 823,
            cc == lat.cols as int,
            rr == lat.rows as int,
            s == sign as int,
            forall|i: int|
                0 <= i < pts@.len() ==> -STEP <= (#[trigger] pts@[i]).x <= 8_220_000 && -STEP
                    <= pts@[i].y <= 8_220_000,
            spec_walk(
                cc,
                rr,
                lat.nodes@,
                balls@,
                s,
                iteration,
                cx as int,
                cy as int,
                incoming,
                pts@,
                fuel as nat,
            ) == target,
        decreases fuel,
    {
        let ghost pre_nodes = lat.nodes@;
        let ghost pre_cx = cx as int;
        let ghost pre_cy = cy as int;
        let ghost pre_inc = incoming;
        let ghost pre_pts = pts@;
        let ghost pre_fuel = fuel as nat;
        let step = marching_squares(lat, balls, sign, iteration, cx, cy, incoming);
        proof {
            let sr = spec_step(cc, rr, pre_nodes, balls@, s, iteration, pre_cx, pre_cy, pre_inc);
            assert(step == sr.0 && lat.nodes@ == sr.1);
            assert(spec_walk(
                cc,
                rr,
                pre_nodes,
                balls@,
                s,
                iteration,
                pre_cx,
                pre_cy,
                pre_inc,
                pre_pts,
                pre_fuel,
            ) == (match sr.0 {
                StepResult::Closed => (
                    if pre_pts.len() > 0 {
                        Option::Some(pre_pts)
                    } else {
                        Option::None
                    },
                    sr.1,
                ),
                StepResult::Restart { x: x2, y: y2 } => spec_walk(
                    cc,
                    rr,
                    sr.1,
                    balls@,
                    s,
                    iteration,
                    fold_coord(x2 as int, cc),
                    fold_coord(y2 as int, rr),
                    Option::None,
                    pre_pts,
                    (pre_fuel - 1) as nat,
                ),
                StepResult::Advance { x: x2, y: y2, dir, point } => spec_walk(
                    cc,
                    rr,
                    sr.1,
                    balls@,
                    s,
                    iteration,
                    fold_coord(x2 as int, cc),
                    fold_coord(y2 as int, rr),
                    Option::Some(dir),
                    pre_pts.push(point),
                    (pre_fuel - 1) as nat,
                ),
            }));
        }
        match step {
            StepResult::Closed => {
                if pts.len() > 0 {
                    return Option::Some(pts);
                } else {
                    return Option::None;
                }
            },
            StepResult::Restart { x, y } => {
                cx = x;
                cy = y;
                incoming = Option::None;
            },
            StepResult::Advance { x, y, dir, point } => {
                pts.push(point);
                cx = x;
                cy = y;
                incoming = Option::Some(dir);
            },
        }
        // A coordinate more than one node past the ring addresses the
        // same clamped node as the ring itself, so fold it back.
        let cols_i: i64 = lat.cols as i64;
        let rows_i: i64 = lat.rows as i64;
        if cx < -1 {
            cx = -1;
        }
        if cx > cols_i {
            cx = cols_i;
        }
        if cy < -1 {
            cy = -1;
        }
        if cy > rows_i {
            cy = rows_i;
        }
        fuel = fuel - 1;
    }
    proof {
        assert(spec_walk(
            cc,
            rr,
            lat.nodes@,
            balls@,
            s,
            iteration,
            cx as int,
            cy as int,
            incoming,
            pts@,
            0nat,
        ) == (Option::<Seq<PathPoint>>::None, lat.nodes@));
    }
    Option::None
}

} // verus!
