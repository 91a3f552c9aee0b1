//! The field evaluator: combined potential of all sources at a node.

use crate::ball::Ball;
use crate::fixed::{
    abs_i, BOUNDARY_FORCE, DEN_FLOOR, FORCE_LIMIT, FSCALE, MAX_BALLS, MAX_DIM, TERM_LIMIT,
    VEL_LIMIT,
};
use crate::lattice::{Lattice, LatticeNode};
use vstd::arithmetic::div_mod::{lemma_div_is_ordered, lemma_div_is_ordered_by_denominator};
use vstd::prelude::*;

verus! {

/// The square of a mathematical integer.
pub open spec fn sq(x: int) -> int {
    x * x
}

/// The denominator used for one ball's contribution: the squared
/// node-to-ball distance, floored at `DEN_FLOOR`. The floor is the
/// documented guard for the degenerate case of a ball centred (almost)
/// exactly on a node, which would otherwise divide by zero.
pub open spec fn floored_den(d2: int) -> int {
    if d2 < DEN_FLOOR {
        DEN_FLOOR as int
    } else {
        d2
    }
}

/// One ball's contribution to the potential at `(nx, ny)`:
/// `radius^2 / distance^2`, in `1/FSCALE` units.
pub open spec fn ball_term(b: Ball, nx: int, ny: int) -> int {
    (b.radius * b.radius * FSCALE) / floored_den(
        sq(nx - b.position.sx()) + sq(ny - b.position.sy()),
    )
}

/// The combined (unsigned) potential at `(nx, ny)`: the sum of every
/// ball's contribution.
pub open spec fn field_sum(balls: Seq<Ball>, nx: int, ny: int) -> int
    decreases balls.len(),
{
    if balls.len() == 0 {
        0
    } else {
        field_sum(balls.drop_last(), nx, ny) + ball_term(balls.last(), nx, ny)
    }
}

/// A well-formed collection of field sources of a size the arithmetic
/// bounds admit.
pub open spec fn balls_ok(balls: Seq<Ball>) -> bool {
    &&& balls.len() <= MAX_BALLS
    &&& forall|i: int| 0 <= i < balls.len() ==> (#[trigger] balls[i]).wf()
}

/// The potential the evaluator owes grid coordinate `(gx, gy)`: the
/// fixed boundary potential on the padding ring, otherwise the combined
/// potential at the addressed node's coordinates; both carry the
/// current sign convention.
pub open spec fn spec_force(lat: Lattice, balls: Seq<Ball>, sign: int, gx: int, gy: int) -> int {
    if lat.spec_on_boundary(gx, gy) {
        BOUNDARY_FORCE * sign
    } else {
        sign * field_sum(
            balls,
            lat.node_x(lat.spec_index(gx, gy)),
            lat.node_y(lat.spec_index(gx, gy)),
        )
    }
}

/// A cached potential may stand in for a fresh one exactly when its
/// sign already agrees with the current frame's sign convention.
pub open spec fn cache_fresh(cached: int, sign: int) -> bool {
    cached * sign > 0
}

/// What a cache-aware evaluation returns: the cached value when it is
/// fresh for this sign, the freshly computed one otherwise.
pub open spec fn sample_val(cached: int, computed: int, sign: int) -> int {
    if cache_fresh(cached, sign) {
        cached
    } else {
        computed
    }
}

/// What a cache-aware evaluation at `(gx, gy)` returns on lattice
/// `lat`.
pub open spec fn spec_sample(lat: Lattice, balls: Seq<Ball>, sign: int, gx: int, gy: int) -> int {
    sample_val(
        lat.nodes@[lat.spec_index(gx, gy)].force as int,
        spec_force(lat, balls, sign, gx, gy),
        sign,
    )
}

/// The node sequence after a cache-aware evaluation at `(gx, gy)`: the
/// addressed node holds the returned potential, everything else is
/// untouched.
pub open spec fn nodes_after_sample(
    lat: Lattice,
    balls: Seq<Ball>,
    sign: int,
    gx: int,
    gy: int,
) -> Seq<LatticeNode> {
    lat.nodes@.update(
        lat.spec_index(gx, gy),
        LatticeNode {
            force: spec_sample(lat, balls, sign, gx, gy) as i64,
            ..lat.nodes@[lat.spec_index(gx, gy)]
        },
    )
}

/// The flat node index of grid coordinate `(gx, gy)` on a grid of the
/// given size, each axis clamped into range first.
pub open spec fn grid_index(cols: int, rows: int, gx: int, gy: int) -> int {
    crate::lattice::clamp_coord(gy, rows) * cols + crate::lattice::clamp_coord(gx, cols)
}

/// Whether `(gx, gy)`, clamped into range, lies on the outer ring of a
/// grid of the given size.
pub open spec fn on_ring(cols: int, rows: int, gx: int, gy: int) -> bool {
    ||| crate::lattice::clamp_coord(gx, cols) == 0
    ||| crate::lattice::clamp_coord(gy, rows) == 0
    ||| crate::lattice::clamp_coord(gx, cols) == cols - 1
    ||| crate::lattice::clamp_coord(gy, rows) == rows - 1
}

/// The potential the evaluator owes `(gx, gy)` on a grid of the given
/// size: `spec_force`, stated over the grid dimensions alone.
pub open spec fn field_force(
    cols: int,
    rows: int,
    balls: Seq<Ball>,
    sign: int,
    gx: int,
    gy: int,
) -> int {
    if on_ring(cols, rows, gx, gy) {
        BOUNDARY_FORCE * sign
    } else {
        sign * field_sum(
            balls,
            crate::lattice::clamp_coord(gx, cols) * crate::fixed::STEP,
            crate::lattice::clamp_coord(gy, rows) * crate::fixed::STEP,
        )
    }
}

/// What a cache-aware evaluation at `(gx, gy)` returns, over a node
/// sequence and the grid dimensions.
pub open spec fn cached_sample(
    cols: int,
    rows: int,
    nodes: Seq<LatticeNode>,
    balls: Seq<Ball>,
    sign: int,
    gx: int,
    gy: int,
) -> int {
    sample_val(
        nodes[grid_index(cols, rows, gx, gy)].force as int,
        field_force(cols, rows, balls, sign, gx, gy),
        sign,
    )
}

/// The node sequence after one cache-aware evaluation at `(gx, gy)`.
pub open spec fn after_sample(
    cols: int,
    rows: int,
    nodes: Seq<LatticeNode>,
    balls: Seq<Ball>,
    sign: int,
    gx: int,
    gy: int,
) -> Seq<LatticeNode> {
    nodes.update(
        grid_index(cols, rows, gx, gy),
        LatticeNode {
            force: cached_sample(cols, rows, nodes, balls, sign, gx, gy) as i64,
            ..nodes[grid_index(cols, rows, gx, gy)]
        },
    )
}

/// On any lattice, the potential owed a coordinate is a function of
/// the grid dimensions alone.
pub proof fn lemma_force_dims(lat: Lattice, balls: Seq<Ball>, sign: int, gx: int, gy: int)
    requires
        1 <= lat.cols,
        1 <= lat.rows,
    ensures
        spec_force(lat, balls, sign, gx, gy) == field_force(
            lat.cols as int,
            lat.rows as int,
            balls,
            sign,
            gx,
            gy,
        ),
        lat.spec_index(gx, gy) == grid_index(lat.cols as int, lat.rows as int, gx, gy),
{
    let c = lat.cols as int;
    let r = lat.rows as int;
    let cx = crate::lattice::clamp_coord(gx, c);
    let cy = crate::lattice::clamp_coord(gy, r);
    let idx = cy * c + cx;
    if !lat.spec_on_boundary(gx, gy) {
        vstd::arithmetic::div_mod::lemma_fundamental_div_mod_converse(idx, c, cy, cx);
        assert(lat.node_x(idx) == cx * crate::fixed::STEP);
        assert(lat.node_y(idx) == cy * crate::fixed::STEP);
    }
}

/// One ball contributes a bounded, non-negative amount.
pub proof fn lemma_term_bound(b: Ball, nx: int, ny: int)
    requires
        b.wf(),
    ensures
        0 <= ball_term(b, nx, ny) <= TERM_LIMIT,
{
    let num = b.radius * b.radius * FSCALE;
    let d2 = sq(nx - b.position.sx()) + sq(ny - b.position.sy());
    assert(0 <= b.radius * b.radius <= MAX_DIM * MAX_DIM && sq(nx - b.position.sx()) >= 0 && sq(
        ny - b.position.sy(),
    ) >= 0) by (nonlinear_arith)
        requires
            0 < b.radius <= MAX_DIM,
    ;
    assert(floored_den(d2) >= DEN_FLOOR);
    lemma_div_is_ordered_by_denominator(num, DEN_FLOOR as int, floored_den(d2));
    assert(num / (DEN_FLOOR as int) <= TERM_LIMIT);
    assert(ball_term(b, nx, ny) >= 0) by {
        vstd::arithmetic::div_mod::lemma_div_pos_is_pos(num, floored_den(d2));
    }
}

/// The iso-condition for a single source, away from the epsilon
/// floor: one ball's contribution exceeds the threshold exactly on
/// the disk `d^2 * (FSCALE + 1) <= r^2 * FSCALE` — the fixed-point
/// form of `r^2 / d^2 > 1`, that is `d < r` up to one part in a
/// million.
pub proof fn lemma_iso_disk(b: Ball, nx: int, ny: int)
    requires
        b.wf(),
        sq(nx - b.position.sx()) + sq(ny - b.position.sy()) >= DEN_FLOOR,
    ensures
        ball_term(b, nx, ny) > FSCALE <==> (FSCALE + 1) * (sq(nx - b.position.sx()) + sq(
            ny - b.position.sy(),
        )) <= FSCALE * (b.radius * b.radius),
{
    let d2 = sq(nx - b.position.sx()) + sq(ny - b.position.sy());
    let num = b.radius * b.radius * FSCALE;
    assert(floored_den(d2) == d2);
    assert(num == FSCALE * (b.radius * b.radius)) by (nonlinear_arith)
        requires
            num == b.radius * b.radius * FSCALE,
    ;
    if (FSCALE + 1) * d2 <= num {
        lemma_div_is_ordered((FSCALE + 1) * d2, num, d2);
        vstd::arithmetic::div_mod::lemma_div_multiples_vanish(FSCALE + 1, d2);
        assert(d2 * (FSCALE + 1) == (FSCALE + 1) * d2) by (nonlinear_arith);
        assert(ball_term(b, nx, ny) >= FSCALE + 1);
    }
    if ball_term(b, nx, ny) > FSCALE {
        let q = num / d2;
        vstd::arithmetic::div_mod::lemma_fundamental_div_mod(num, d2);
        assert(q * d2 >= (FSCALE + 1) * d2) by (nonlinear_arith)
            requires
                q >= FSCALE + 1,
                d2 > 0,
        ;
        assert(num % d2 >= 0);
        assert((FSCALE + 1) * d2 <= num);
    }
}

/// With a single field source, the potential at an interior node
/// (away from the epsilon floor) exceeds the iso-threshold in
/// magnitude exactly when the node lies on the ball's disk:
/// `d^2 * (FSCALE + 1) <= r^2 * FSCALE`, the fixed-point form of
/// `r^2 / d^2 > 1`, that is `d < r` up to one part in a million. This
/// is what makes a lone ball's traced contour hug its circle.
pub proof fn lemma_single_ball_iso(cols: int, rows: int, b: Ball, sign: int, gx: int, gy: int)
    requires
        b.wf(),
        sign == 1 || sign == -1,
        !on_ring(cols, rows, gx, gy),
        sq(crate::lattice::clamp_coord(gx, cols) * crate::fixed::STEP - b.position.sx()) + sq(
            crate::lattice::clamp_coord(gy, rows) * crate::fixed::STEP - b.position.sy(),
        ) >= DEN_FLOOR,
    ensures
        abs_i(field_force(cols, rows, seq![b], sign, gx, gy)) > FSCALE <==> (FSCALE + 1) * (sq(
            crate::lattice::clamp_coord(gx, cols) * crate::fixed::STEP - b.position.sx(),
        ) + sq(crate::lattice::clamp_coord(gy, rows) * crate::fixed::STEP - b.position.sy()))
            <= FSCALE * (b.radius * b.radius),
{
    let nx = crate::lattice::clamp_coord(gx, cols) * crate::fixed::STEP;
    let ny = crate::lattice::clamp_coord(gy, rows) * crate::fixed::STEP;
    let one = seq![b];
    assert(one.drop_last() =~= Seq::<Ball>::empty());
    assert(one.len() == 1 && one.last() == b);
    assert(field_sum(Seq::<Ball>::empty(), nx, ny) == 0);
    assert(field_sum(one, nx, ny) == ball_term(b, nx, ny));
    lemma_iso_disk(b, nx, ny);
    lemma_term_bound(b, nx, ny);
    assert(abs_i(sign * field_sum(one, nx, ny)) == field_sum(one, nx, ny)) by (nonlinear_arith)
        requires
            sign == 1 || sign == -1,
            field_sum(one, nx, ny) >= 0,
    ;
}

/// The combined potential is non-negative and bounded by the ball
/// count times the per-ball bound.
pub proof fn lemma_field_sum_bound(balls: Seq<Ball>, nx: int, ny: int)
    requires
        forall|i: int| 0 <= i < balls.len() ==> (#[trigger] balls[i]).wf(),
    ensures
        0 <= field_sum(balls, nx, ny) <= balls.len() * TERM_LIMIT,
    decreases balls.len(),
{
    if balls.len() == 0 {
    } else {
        let sub = balls.drop_last();
        lemma_field_sum_bound(sub, nx, ny);
        lemma_term_bound(balls.last(), nx, ny);
        assert(sub.len() * TERM_LIMIT + TERM_LIMIT == balls.len() * TERM_LIMIT)
            by (nonlinear_arith)
            requires
                sub.len() == balls.len() - 1,
        ;
    }
}

/// Computes the potential at grid coordinate `(gx, gy)` and caches it
/// on the addressed node (leaving the node's generation stamp alone).
///
/// The denominator of each contribution is formed with the magnitude
/// identity `|n|^2 + |b|^2 - 2 n.b`, which equals the squared
/// node-to-ball distance exactly in integer arithmetic.
pub fn compute_force(lat: &mut Lattice, balls: &Vec<Ball>, sign: i64, gx: i64, gy: i64) -> (f:
    i64)
    requires
        old(lat).wf(),
        balls_ok(balls@),
        sign == 1 || sign == -1,
    ensures
        final(lat).wf(),
        f == spec_force(*old(lat), balls@, sign as int, gx as int, gy as int),
        abs_i(f as int) <= FORCE_LIMIT,
        final(lat).step == old(lat).step,
        final(lat).cols == old(lat).cols,
        final(lat).rows == old(lat).rows,
        final(lat).nodes@ == old(lat).nodes@.update(
            old(lat).spec_index(gx as int, gy as int),
            (LatticeNode { force: f, ..old(lat).nodes@[old(lat).spec_index(gx as int, gy as int)] }),
        ),
{
    let ghost lat0 = *lat;
    let idx = lat.index_of(gx, gy);
    let f: i64;
    if lat.on_boundary(gx, gy) {
        f = if sign == 1 {
            BOUNDARY_FORCE
        } else {
            -BOUNDARY_FORCE
        };
    } else {
        let nx: i64 = lat.nodes[idx].x;
        let ny: i64 = lat.nodes[idx].y;
        let nm: i64 = lat.nodes[idx].magnitude;
        proof {
            assert(0 <= nx <= 8_220_000 && 0 <= ny <= 8_220_000) by (nonlinear_arith)
                requires
                    nx == (idx as int % (lat0.cols as int)) * 10_000,
                    ny == (idx as int / (lat0.cols as int)) * 10_000,
                    0 <= idx as int % (lat0.cols as int) < lat0.cols as int,
                    0 <= idx as int / (lat0.cols as int),
                    (idx as int) < (lat0.cols as int) * (lat0.rows as int),
                    2 <= lat0.cols as int <= 822,
                    2 <= lat0.rows as int <= 822,
            ;
        }
        let ghost snx = nx as int;
        let ghost sny = ny as int;
        let mut acc: u64 = 0;
        let mut k: usize = 0;
        while k < balls.len()
            invariant
                balls_ok(balls@),
                k <= balls@.len(),
                acc == field_sum(balls@.take(k as int), snx, sny),
                acc <= k * TERM_LIMIT,
                0 <= snx <= 8_220_000,
                0 <= sny <= 8_220_000,
                nx == snx,
                ny == sny,
                nm == snx * snx + sny * sny,
            decreases balls@.len() - k,
        {
            let b = balls[k];
            proof {
                assert(balls@[k as int].wf());
                assert(abs_i(b.position.sx()) <= MAX_DIM + VEL_LIMIT && abs_i(b.position.sy())
                    <= MAX_DIM + VEL_LIMIT);
                assert(abs_i(snx * b.position.sx()) <= 8_220_000 * (MAX_DIM + VEL_LIMIT) && abs_i(
                    sny * b.position.sy(),
                ) <= 8_220_000 * (MAX_DIM + VEL_LIMIT)) by (nonlinear_arith)
                    requires
                        0 <= snx <= 8_220_000,
                        0 <= sny <= 8_220_000,
                        abs_i(b.position.sx()) <= MAX_DIM + VEL_LIMIT,
                        abs_i(b.position.sy()) <= MAX_DIM + VEL_LIMIT,
                ;
            }
            proof {
                assert(0 <= b.position.smag() <= 2 * 16_000_000 * 16_000_000 && 0 <= nm <= 2
                    * 8_220_000 * 8_220_000) by (nonlinear_arith)
                    requires
                        b.position.smag() == b.position.sx() * b.position.sx() + b.position.sy()
                            * b.position.sy(),
                        abs_i(b.position.sx()) <= 16_000_000,
                        abs_i(b.position.sy()) <= 16_000_000,
                        nm == snx * snx + sny * sny,
                        0 <= snx <= 8_220_000,
                        0 <= sny <= 8_220_000,
                ;
            }
            let cross: i64 = nx * b.position.x + ny * b.position.y;
            let den_raw: i64 = b.position.magnitude + nm - 2 * cross;
            proof {
                assert(den_raw == sq(snx - b.position.sx()) + sq(sny - b.position.sy()))
                    by (nonlinear_arith)
                    requires
                        den_raw == b.position.smag() + nm - 2 * (snx * b.position.sx() + sny
                            * b.position.sy()),
                        b.position.smag() == b.position.sx() * b.position.sx() + b.position.sy()
                            * b.position.sy(),
                        nm == snx * snx + sny * sny,
                        sq(snx - b.position.sx()) == (snx - b.position.sx()) * (snx
                            - b.position.sx()),
                        sq(sny - b.position.sy()) == (sny - b.position.sy()) * (sny
                            - b.position.sy()),
                ;
                assert(den_raw >= 0) by (nonlinear_arith)
                    requires
                        den_raw == sq(snx - b.position.sx()) + sq(sny - b.position.sy()),
                        sq(snx - b.position.sx()) == (snx - b.position.sx()) * (snx
                            - b.position.sx()),
                        sq(sny - b.position.sy()) == (sny - b.position.sy()) * (sny
                            - b.position.sy()),
                ;
            }
            let den: i64 = if den_raw < DEN_FLOOR {
                DEN_FLOOR
            } else {
                den_raw
            };
            proof {
                assert(0 <= (b.radius as int) * (b.radius as int) <= MAX_DIM * MAX_DIM)
                    by (nonlinear_arith)
                    requires
                        0 < b.radius <= MAX_DIM,
                ;
            }
            let num: u128 = (b.radius as u128) * (b.radius as u128) * (FSCALE as u128);
            let t: u128 = num / (den as u128);
            proof {
                assert(t == ball_term(balls@[k as int], snx, sny) && 0 <= t <= TERM_LIMIT) by {
                    lemma_term_bound(balls@[k as int], snx, sny);
                    assert(num == (b.radius as int) * (b.radius as int) * FSCALE);
                    assert(den as int == floored_den(sq(snx - b.position.sx()) + sq(
                        sny - b.position.sy(),
                    )));
                }
                assert(acc + t <= (k + 1) * TERM_LIMIT) by (nonlinear_arith)
                    requires
                        acc <= k * TERM_LIMIT,
                        0 <= t <= TERM_LIMIT,
                        0 <= k as int,
                ;
                assert(balls@.take(k as int + 1).drop_last() =~= balls@.take(k as int));
                assert(balls@.take(k as int + 1).last() == balls@[k as int]);
                assert((k + 1) * TERM_LIMIT <= 64 * TERM_LIMIT) by (nonlinear_arith)
                    requires
                        k as int + 1 <= 64,
                ;
            }
            acc = acc + (t as u64);
            k += 1;
        }
        proof {
            assert(balls@.take(balls@.len() as int) =~= balls@);
            assert(acc <= FORCE_LIMIT) by (nonlinear_arith)
                requires
                    acc <= balls@.len() * TERM_LIMIT,
                    balls@.len() <= 64,
                    TERM_LIMIT == 100 * 8_192_000 * 8_192_000,
                    FORCE_LIMIT == 64 * 100 * 8_192_000 * 8_192_000,
            ;
        }
        f = if sign == 1 {
            acc as i64
        } else {
            -(acc as i64)
        };
    }
    let mut node = lat.nodes[idx];
    node.force = f;
    lat.nodes.set(idx, node);
    f
}

/// Evaluates the potential at `(gx, gy)` through the cache: a stored
/// value whose sign already agrees with the current sign convention is
/// reused; otherwise the potential is recomputed and recached.
pub fn sample_force(lat: &mut Lattice, balls: &Vec<Ball>, sign: i64, gx: i64, gy: i64) -> (f: i64)
    requires
        old(lat).wf(),
        balls_ok(balls@),
        sign == 1 || sign == -1,
    ensures
        final(lat).wf(),
        f == spec_sample(*old(lat), balls@, sign as int, gx as int, gy as int),
        abs_i(f as int) <= FORCE_LIMIT,
        final(lat).step == old(lat).step,
        final(lat).cols == old(lat).cols,
        final(lat).rows == old(lat).rows,
        final(lat).nodes@ == nodes_after_sample(*old(lat), balls@, sign as int, gx as int, gy as int),
{
    let idx = lat.index_of(gx, gy);
    let cached: i64 = lat.nodes[idx].force;
    if (cached > 0 && sign == 1) || (cached < 0 && sign == -1) {
        proof {
            assert(cache_fresh(cached as int, sign as int)) by (nonlinear_arith)
                requires
                    (cached > 0 && sign == 1) || (cached < 0 && sign == -1),
            ;
            assert(lat.nodes@ =~= nodes_after_sample(*lat, balls@, sign as int, gx as int, gy as int));
        }
        cached
    } else {
        proof {
            assert(!cache_fresh(cached as int, sign as int)) by (nonlinear_arith)
                requires
                    !((cached > 0 && sign == 1) || (cached < 0 && sign == -1)),
                    sign == 1 || sign == -1,
            ;
        }
        compute_force(lat, balls, sign, gx, gy)
    }
}

/// Idempotence of caching within one frame: after one cache-aware
/// evaluation at a node, a second evaluation at the same node with the
/// same sign returns the identical cached value and changes no node.
pub proof fn lemma_cache_idempotent(
    lat: Lattice,
    lat2: Lattice,
    balls: Seq<Ball>,
    sign: int,
    gx: int,
    gy: int,
)
    requires
        lat.wf(),
        balls_ok(balls),
        sign == 1 || sign == -1,
        lat2.step == lat.step,
        lat2.cols == lat.cols,
        lat2.rows == lat.rows,
        lat2.nodes@ == nodes_after_sample(lat, balls, sign, gx, gy),
    ensures
        spec_sample(lat2, balls, sign, gx, gy) == spec_sample(lat, balls, sign, gx, gy),
        nodes_after_sample(lat2, balls, sign, gx, gy) == lat2.nodes@,
{
    let idx = lat.spec_index(gx, gy);
    assert(0 <= idx < lat.nodes@.len()) by (nonlinear_arith)
        requires
            idx == lat.spec_index(gx, gy),
            lat.nodes@.len() == (lat.cols as int) * (lat.rows as int),
            2 <= lat.cols,
            2 <= lat.rows,
            0 <= crate::lattice::clamp_coord(gx, lat.cols as int) < lat.cols as int,
            0 <= crate::lattice::clamp_coord(gy, lat.rows as int) < lat.rows as int,
            idx == crate::lattice::clamp_coord(gy, lat.rows as int) * (lat.cols as int)
                + crate::lattice::clamp_coord(gx, lat.cols as int),
    ;
    let v = spec_sample(lat, balls, sign, gx, gy);
    let computed = spec_force(lat, balls, sign, gx, gy);
    assert(spec_force(lat2, balls, sign, gx, gy) == computed);
    assert(lat2.spec_index(gx, gy) == idx);
    assert(abs_i(computed) <= FORCE_LIMIT) by {
        if !lat.spec_on_boundary(gx, gy) {
            lemma_field_sum_bound(balls, lat.node_x(idx), lat.node_y(idx));
            assert(field_sum(balls, lat.node_x(idx), lat.node_y(idx)) <= 64 * TERM_LIMIT)
                by (nonlinear_arith)
                requires
                    field_sum(balls, lat.node_x(idx), lat.node_y(idx)) <= balls.len()
                        * TERM_LIMIT,
                    balls.len() <= 64,
                    field_sum(balls, lat.node_x(idx), lat.node_y(idx)) >= 0,
            ;
        }
    }
    assert(abs_i(lat.nodes@[idx].force as int) <= FORCE_LIMIT);
    assert(abs_i(v) <= FORCE_LIMIT);
    assert(lat2.nodes@[idx].force as int == v);
    assert(spec_sample(lat2, balls, sign, gx, gy) == sample_val(v, computed, sign));
    if cache_fresh(lat.nodes@[idx].force as int, sign) {
        assert(sample_val(v, computed, sign) == v);
    } else {
        assert(v == computed);
    }
    assert(nodes_after_sample(lat2, balls, sign, gx, gy) =~= lat2.nodes@);
}

} // verus!
