//! The lamp: frame driver over balls, lattice, evaluator and tracer.

use crate::ball::{moved_pos, reflected_vel, Ball};
use crate::field::balls_ok;
use crate::fixed::{MAX_BALLS, MAX_DIM, MAX_DIM_PX, SCALE, STEP};
use crate::lattice::{Lattice, LatticeNode};
use crate::point::PathPoint;
use crate::tracer::{fold_coord, spec_walk, trace_contour};
use vstd::prelude::*;

verus! {

/// The lattice coordinate a subpixel position seeds the walk at: the
/// position over the step, rounded to the nearest integer.
pub open spec fn seed_of(p: int) -> int {
    (p + 5_000) / 10_000
}

/// The contour walks of one frame, over the first `k` balls in order:
/// the completed paths (a ball whose walk yields nothing contributes
/// no path) and the node sequence the walks leave behind. The
/// executable frame advance is proved equal to this function.
pub open spec fn spec_frame(
    cols: int,
    rows: int,
    nodes: Seq<LatticeNode>,
    balls: Seq<Ball>,
    sign: int,
    iteration: u64,
    k: int,
) -> (Seq<Seq<PathPoint>>, Seq<LatticeNode>)
    decreases k,
{
    if k <= 0 {
        (Seq::empty(), nodes)
    } else {
        let prev = spec_frame(cols, rows, nodes, balls, sign, iteration, k - 1);
        let b = balls[k - 1];
        let w = spec_walk(
            cols,
            rows,
            prev.1,
            balls,
            sign,
            iteration,
            fold_coord(seed_of(b.position.sx()), cols),
            fold_coord(seed_of(b.position.sy()), rows),
            Option::None,
            Seq::empty(),
            (4 * cols * rows + 8) as nat,
        );
        match w.0 {
            Option::Some(p) => (prev.0.push(p), w.1),
            Option::None => (prev.0, w.1),
        }
    }
}

/// Why a lamp could not be constructed: the only fallible public
/// operation.
#[derive(Clone, Copy, Debug, PartialEq, Eq, Structural)]
pub enum ConfigError {
    /// A surface dimension was not positive.
    EmptySurface,
    /// The requested ball count was not positive.
    NoBalls,
}

/// A lava lamp: a set of bouncing field sources over one sampling
/// lattice, contoured once per frame. `sign` flips every frame and
/// `iteration` increments every frame; the iteration counter is the
/// authority for the generation stamps on lattice nodes.
pub struct LavaLamp {
    pub lattice: Lattice,
    pub balls: Vec<Ball>,
    pub iteration: u64,
    pub sign: i64,
    pub width: i64,
    pub height: i64,
    pub col0: String,
    pub col1: String,
}

impl LavaLamp {
    /// Well-formedness: the lattice is sized from the surface, the
    /// sign convention is one of the two legal values, and every ball
    /// is well formed and confined to this lamp's surface.
    pub open spec fn wf(self) -> bool {
        &&& self.lattice.wf()
        &&& SCALE <= self.width <= MAX_DIM
        &&& SCALE <= self.height <= MAX_DIM
        &&& self.lattice.cols == self.width / STEP + 2
        &&& self.lattice.rows == self.height / STEP + 2
        &&& self.sign == 1 || self.sign == -1
        &&& balls_ok(self.balls@)
        &&& forall|i: int|
            0 <= i < self.balls@.len() ==> (#[trigger] self.balls@[i]).bounds_w == self.width
                && self.balls@[i].bounds_h == self.height
    }

    /// Builds a lamp from the surface dimensions in pixels, a ball
    /// count and the two gradient colour endpoints, with every ball
    /// randomised: position in the central 60% of the surface,
    /// velocity direction per axis and magnitude offset randomised,
    /// radius scaled to the smaller side. Construction fails exactly
    /// when a dimension or the ball count is not positive.
    pub fn new(w: u32, h: u32, nb: usize, c0: String, c1: String) -> (result: Result<
        LavaLamp,
        ConfigError,
    >)
        requires
            w <= MAX_DIM_PX,
            h <= MAX_DIM_PX,
            nb <= MAX_BALLS,
        ensures
            (w == 0 || h == 0) ==> result == Result::<LavaLamp, ConfigError>::Err(
                ConfigError::EmptySurface,
            ),
            (w > 0 && h > 0 && nb == 0) ==> result == Result::<LavaLamp, ConfigError>::Err(
                ConfigError::NoBalls,
            ),
            (w > 0 && h > 0 && nb > 0) ==> result is Ok && {
                let l = result->Ok_0;
                &&& l.wf()
                &&& l.iteration == 0
                &&& l.sign == 1
                &&& l.width == w * SCALE
                &&& l.height == h * SCALE
                &&& l.lattice.cols == l.width / STEP + 2
                &&& l.lattice.rows == l.height / STEP + 2
                &&& l.balls@.len() == nb
                &&& l.col0@ == c0@
                &&& l.col1@ == c1@
            },
    {
        if w == 0 || h == 0 {
            return Result::Err(ConfigError::EmptySurface);
        }
        if nb == 0 {
            return Result::Err(ConfigError::NoBalls);
        }
        let ws: i64 = (w as i64) * SCALE;
        let hs: i64 = (h as i64) * SCALE;
        let wh: i64 = if ws <= hs {
            ws
        } else {
            hs
        };
        let mut balls: Vec<Ball> = Vec::new();
        let mut i: usize = 0;
        while i < nb
            invariant
                i <= nb,
                nb <= MAX_BALLS,
                balls@.len() == i,
                SCALE <= ws <= MAX_DIM,
                SCALE <= hs <= MAX_DIM,
                wh == crate::fixed::min_i(ws as int, hs as int),
                forall|j: int|
                    0 <= j < i ==> (#[trigger] balls@[j]).wf() && balls@[j].bounds_w == ws
                        && balls@[j].bounds_h == hs,
            decreases nb - i,
        {
            let rx: u32 = rand::random::<u32>();
            let ry: u32 = rand::random::<u32>();
            let rx2: u32 = rand::random::<u32>();
            let ry2: u32 = rand::random::<u32>();
            let b = Ball::new(ws, hs, wh, rx, ry, rx2, ry2);
            balls.push(b);
            i += 1;
        }
        let lattice = Lattice::new(ws, hs);
        Result::Ok(
            LavaLamp {
                lattice,
                balls,
                iteration: 0,
                sign: 1,
                width: ws,
                height: hs,
                col0: c0,
                col1: c1,
            },
        )
    }

    /// Builds a lamp from caller-supplied balls instead of a random
    /// source, for deterministic construction. Fails exactly when a
    /// dimension is not positive or no ball is supplied.
    pub fn with_balls(w: u32, h: u32, balls: Vec<Ball>, c0: String, c1: String) -> (result:
        Result<LavaLamp, ConfigError>)
        requires
            w <= MAX_DIM_PX,
            h <= MAX_DIM_PX,
            balls@.len() <= MAX_BALLS,
            (w > 0 && h > 0) ==> forall|i: int|
                0 <= i < balls@.len() ==> (#[trigger] balls@[i]).wf() && balls@[i].bounds_w == w
                    * SCALE && balls@[i].bounds_h == h * SCALE,
        ensures
            (w == 0 || h == 0) ==> result == Result::<LavaLamp, ConfigError>::Err(
                ConfigError::EmptySurface,
            ),
            (w > 0 && h > 0 && balls@.len() == 0) ==> result == Result::<LavaLamp, ConfigError>::Err(
                ConfigError::NoBalls,
            ),
            (w > 0 && h > 0 && balls@.len() > 0) ==> result is Ok && {
                let l = result->Ok_0;
                &&& l.wf()
                &&& l.iteration == 0
                &&& l.sign == 1
                &&& l.width == w * SCALE
                &&& l.height == h * SCALE
                &&& l.balls@ == balls@
                &&& l.col0@ == c0@
                &&& l.col1@ == c1@
            },
    {
        if w == 0 || h == 0 {
            return Result::Err(ConfigError::EmptySurface);
        }
        if balls.len() == 0 {
            return Result::Err(ConfigError::NoBalls);
        }
        let ws: i64 = (w as i64) * SCALE;
        let hs: i64 = (h as i64) * SCALE;
        let lattice = Lattice::new(ws, hs);
        Result::Ok(
            LavaLamp {
                lattice,
                balls,
                iteration: 0,
                sign: 1,
                width: ws,
                height: hs,
                col0: c0,
                col1: c1,
            },
        )
    }

    /// Advances one animation frame: move every ball one step,
    /// increment the iteration counter, flip the sign convention, then
    /// trace one contour per ball and hand back the completed paths in
    /// ball order (a ball whose walk closes without emitting a point,
    /// or whose walk hits the safety bound, contributes no path). A
    /// lamp with zero balls yields no path.
    #[verifier::spinoff_prover]
    #[verifier::rlimit(100)]
    #[verifier::loop_isolation(false)]
    pub fn render_metaball(&mut self) -> (contours: Vec<Vec<PathPoint>>)
        requires
            old(self).wf(),
            old(self).iteration < u64::MAX,
        ensures
            final(self).wf(),
            final(self).iteration == old(self).iteration + 1,
            final(self).sign == -old(self).sign,
            final(self).width == old(self).width,
            final(self).height == old(self).height,
            final(self).col0@ == old(self).col0@,
            final(self).col1@ == old(self).col1@,
            final(self).balls@.len() == old(self).balls@.len(),
            forall|i: int|
                0 <= i < old(self).balls@.len() ==> {
                    let ob = old(self).balls@[i];
                    let nb = (#[trigger] final(self).balls@[i]);
                    &&& nb.radius == ob.radius
                    &&& nb.bounds_w == ob.bounds_w
                    &&& nb.bounds_h == ob.bounds_h
                    &&& nb.position.sx() == moved_pos(
                        ob.position.sx(),
                        ob.velocity.sx(),
                        ob.radius as int,
                        ob.bounds_w as int,
                    )
                    &&& nb.position.sy() == moved_pos(
                        ob.position.sy(),
                        ob.velocity.sy(),
                        ob.radius as int,
                        ob.bounds_h as int,
                    )
                    &&& nb.velocity.sx() == reflected_vel(
                        ob.position.sx(),
                        ob.velocity.sx(),
                        ob.radius as int,
                        ob.bounds_w as int,
                    )
                    &&& nb.velocity.sy() == reflected_vel(
                        ob.position.sy(),
                        ob.velocity.sy(),
                        ob.radius as int,
                        ob.bounds_h as int,
                    )
                },
            contours@.len() <= old(self).balls@.len(),
            old(self).balls@.len() == 0 ==> contours@.len() == 0,
            forall|c: int|
                0 <= c < contours@.len() ==> (#[trigger] contours@[c])@.len() >= 1,
            forall|c: int, i: int|
                0 <= c < contours@.len() && 0 <= i < contours@[c]@.len() ==> -STEP <= (
                #[trigger] contours@[c]@[i]).x <= 8_220_000 && -STEP <= contours@[c]@[i].y
                    <= 8_220_000,
            ({
                let fr = spec_frame(
                    old(self).lattice.cols as int,
                    old(self).lattice.rows as int,
                    old(self).lattice.nodes@,
                    final(self).balls@,
                    -(old(self).sign as int),
                    (old(self).iteration + 1) as u64,
                    old(self).balls@.len() as int,
                );
                &&& contours@.len() == fr.0.len()
                &&& (forall|c: int|
                    0 <= c < contours@.len() ==> (#[trigger] contours@[c])@ == fr.0[c])
                &&& final(self).lattice.nodes@ == fr.1
            }),
    {
        let n = self.balls.len();
        let mut i: usize = 0;
        while i < n
            invariant
                old(self).wf(),
                i <= n,
                n == old(self).balls@.len(),
                self.balls@.len() == n,
                self.lattice == old(self).lattice,
                self.iteration == old(self).iteration,
                self.sign == old(self).sign,
                self.width == old(self).width,
                self.height == old(self).height,
                self.col0 == old(self).col0,
                self.col1 == old(self).col1,
                forall|j: int| i <= j < n ==> self.balls@[j] == old(self).balls@[j],
                forall|j: int|
                    0 <= j < i ==> {
                        let ob = old(self).balls@[j];
                        let nb = (#[trigger] self.balls@[j]);
                        &&& nb.wf()
                        &&& nb.radius == ob.radius
                        &&& nb.bounds_w == ob.bounds_w
                        &&& nb.bounds_h == ob.bounds_h
                        &&& nb.position.sx() == moved_pos(
                            ob.position.sx(),
                            ob.velocity.sx(),
                            ob.radius as int,
                            ob.bounds_w as int,
                        )
                        &&& nb.position.sy() == moved_pos(
                            ob.position.sy(),
                            ob.velocity.sy(),
                            ob.radius as int,
                            ob.bounds_h as int,
                        )
                        &&& nb.velocity.sx() == reflected_vel(
                            ob.position.sx(),
                            ob.velocity.sx(),
                            ob.radius as int,
                            ob.bounds_w as int,
                        )
                        &&& nb.velocity.sy() == reflected_vel(
                            ob.position.sy(),
                            ob.velocity.sy(),
                            ob.radius as int,
                            ob.bounds_h as int,
                        )
                    },
            decreases n - i,
        {
            let mut b = self.balls[i];
            b.mov();
            self.balls.set(i, b);
            i += 1;
        }
        self.iteration = self.iteration + 1;
        self.sign = if self.sign == 1 {
            -1
        } else {
            1
        };
        let ghost cc = self.lattice.cols as int;
        let ghost rr = self.lattice.rows as int;
        let ghost nodes0 = self.lattice.nodes@;
        let ghost ballsv = self.balls@;
        let ghost s2 = self.sign as int;
        let ghost it2 = self.iteration;
        let mut contours: Vec<Vec<PathPoint>> = Vec::new();
        let mut k: usize = 0;
        while k < n
            invariant
                k <= n,
                n == self.balls@.len(),
                self.lattice.wf(),
                self.lattice.cols == self.width / STEP + 2,
                self.lattice.rows == self.height / STEP + 2,
                SCALE <= self.width <= MAX_DIM,
                SCALE <= self.height <= MAX_DIM,
                self.sign == 1 || self.sign == -1,
                balls_ok(self.balls@),
                forall|j: int|
                    0 <= j < self.balls@.len() ==> (#[trigger] self.balls@[j]).bounds_w
                        == self.width && self.balls@[j].bounds_h == self.height,
                self.iteration == old(self).iteration + 1,
                self.sign == -old(self).sign,
                self.width == old(self).width,
                self.height == old(self).height,
                self.col0 == old(self).col0,
                self.col1 == old(self).col1,
                self.balls@.len() == old(self).balls@.len(),
                forall|j: int|
                    0 <= j < old(self).balls@.len() ==> {
                        let ob = old(self).balls@[j];
                        let nb = (#[trigger] self.balls@[j]);
                        &&& nb.radius == ob.radius
                        &&& nb.bounds_w == ob.bounds_w
                        &&& nb.bounds_h == ob.bounds_h
                        &&& nb.position.sx() == moved_pos(
                            ob.position.sx(),
                            ob.velocity.sx(),
                            ob.radius as int,
                            ob.bounds_w as int,
                        )
                        &&& nb.position.sy() == moved_pos(
                            ob.position.sy(),
                            ob.velocity.sy(),
                            ob.radius as int,
                            ob.bounds_h as int,
                        )
                        &&& nb.velocity.sx() == reflected_vel(
                            ob.position.sx(),
                            ob.velocity.sx(),
                            ob.radius as int,
                            ob.bounds_w as int,
                        )
                        &&& nb.velocity.sy() == reflected_vel(
                            ob.position.sy(),
                            ob.velocity.sy(),
                            ob.radius as int,
                            ob.bounds_h as int,
                        )
                    },
                contours@.len() <= k,
                forall|c: int|
                    0 <= c < contours@.len() ==> (#[trigger] contours@[c])@.len() >= 1,
                forall|c: int, j: int|
                    0 <= c < contours@.len() && 0 <= j < contours@[c]@.len() ==> -STEP <= (
                    #[trigger] contours@[c]@[j]).x <= 8_220_000 && -STEP <= contours@[c]@[j].y
                        <= 8_220_000,
                cc == self.lattice.cols as int,
                rr == self.lattice.rows as int,
                ballsv == self.balls@,
                s2 == self.sign as int,
                it2 == self.iteration,
                ({
                    let fr = spec_frame(cc, rr, nodes0, ballsv, s2, it2, k as int);
                    &&& contours@.len() == fr.0.len()
                    &&& (forall|c: int|
                        0 <= c < contours@.len() ==> (#[trigger] contours@[c])@ == fr.0[c])
                    &&& self.lattice.nodes@ == fr.1
                }),
            decreases n - k,
        {
            let b = self.balls[k];
            // seed of the walk: the ball position rounded to the
            // nearest lattice coordinate
            let seed_x: i64 = (((b.position.x + 5_000) as u64) / 10_000u64) as i64;
            let seed_y: i64 = (((b.position.y + 5_000) as u64) / 10_000u64) as i64;
            let ghost pre_nodes = self.lattice.nodes@;
            let path = trace_contour(
                &mut self.lattice,
                &self.balls,
                self.sign,
                self.iteration,
                seed_x,
                seed_y,
            );
            proof {
                let prev = spec_frame(cc, rr, nodes0, ballsv, s2, it2, k as int);
                assert(seed_x as int == seed_of(b.position.sx()));
                assert(seed_y as int == seed_of(b.position.sy()));
                let w = spec_walk(
                    cc,
                    rr,
                    pre_nodes,
                    ballsv,
                    s2,
                    it2,
                    fold_coord(seed_of(b.position.sx()), cc),
                    fold_coord(seed_of(b.position.sy()), rr),
                    Option::None,
                    Seq::empty(),
                    (4 * cc * rr + 8) as nat,
                );
                assert(self.lattice.nodes@ == w.1);
                assert(spec_frame(cc, rr, nodes0, ballsv, s2, it2, k as int + 1) == (
                match w.0 {
                    Option::Some(p) => (prev.0.push(p), w.1),
                    Option::None => (prev.0, w.1),
                }));
            }
            match path {
                Option::Some(p) => {
                    contours.push(p);
                },
                Option::None => {},
            }
            k += 1;
        }
        contours
    }

    /// The current frame iteration counter.
    pub fn iteration(&self) -> (r: u64)
        ensures
            r == self.iteration,
    {
        self.iteration
    }

    /// The current sign convention, `1` or `-1`.
    pub fn sign(&self) -> (r: i64)
        ensures
            r == self.sign,
    {
        self.sign
    }

    /// The number of field sources.
    pub fn ball_count(&self) -> (r: usize)
        ensures
            r == self.balls@.len(),
    {
        self.balls.len()
    }

    /// One field source by index.
    pub fn ball(&self, i: usize) -> (b: Ball)
        requires
            i < self.balls@.len(),
        ensures
            b == self.balls@[i as int],
    {
        self.balls[i]
    }

    /// The lattice step, in subpixels.
    pub fn step(&self) -> (r: i64)
        ensures
            r == self.lattice.step,
    {
        self.lattice.step
    }

    /// The number of lattice columns, padding included.
    pub fn cols(&self) -> (r: usize)
        ensures
            r == self.lattice.cols,
    {
        self.lattice.cols
    }

    /// The number of lattice rows, padding included.
    pub fn rows(&self) -> (r: usize)
        ensures
            r == self.lattice.rows,
    {
        self.lattice.rows
    }

    /// The number of lattice nodes.
    pub fn node_count(&self) -> (r: usize)
        ensures
            r == self.lattice.nodes@.len(),
    {
        self.lattice.nodes.len()
    }

    /// The surface width, in subpixels.
    pub fn width(&self) -> (r: i64)
        ensures
            r == self.width,
    {
        self.width
    }

    /// The surface height, in subpixels.
    pub fn height(&self) -> (r: i64)
        ensures
            r == self.height,
    {
        self.height
    }

    /// The first gradient colour endpoint.
    pub fn color0(&self) -> (r: &String)
        ensures
            r@ == self.col0@,
    {
        &self.col0
    }

    /// The second gradient colour endpoint.
    pub fn color1(&self) -> (r: &String)
        ensures
            r@ == self.col1@,
    {
        &self.col1
    }
}

} // verus!
