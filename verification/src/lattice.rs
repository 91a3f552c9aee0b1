//! The fixed-step sampling lattice with its padding ring.

use crate::fixed::{abs_i, FORCE_LIMIT, MAX_DIM, SCALE, STEP};
use vstd::prelude::*;

verus! {

/// One sampling node: lattice coordinates with their magnitude cache,
/// the generation stamp of the frame that last finalised it, and the
/// cached field potential. Nodes are created once when the lattice is
/// sized and reused for the lamp's entire lifetime.
#[derive(Clone, Copy, Debug, PartialEq, Eq, Structural)]
pub struct LatticeNode {
    pub x: i64,
    pub y: i64,
    pub magnitude: i64,
    pub computed_generation: u64,
    pub force: i64,
}

/// A fixed-step 2D grid of nodes covering the drawing surface plus one
/// ring of padding nodes: `cols = floor(width/step) + 2` and
/// `rows = floor(height/step) + 2`. Node `i` sits at grid coordinate
/// `(i % cols, i / cols)`.
#[derive(Debug)]
pub struct Lattice {
    pub step: i64,
    pub cols: usize,
    pub rows: usize,
    pub nodes: Vec<LatticeNode>,
}

/// Clamps a grid coordinate into `[0, n-1]`: stepping one node past the
/// padding ring is legal and recovers to the last valid node.
pub open spec fn clamp_coord(c: int, n: int) -> int {
    if c < 0 {
        0
    } else if c >= n {
        n - 1
    } else {
        c
    }
}

impl Lattice {
    /// The x subpixel coordinate owed to node `i`.
    pub open spec fn node_x(self, i: int) -> int {
        (i % (self.cols as int)) * STEP
    }

    /// The y subpixel coordinate owed to node `i`.
    pub open spec fn node_y(self, i: int) -> int {
        (i / (self.cols as int)) * STEP
    }

    /// Well-formedness: the step is fixed, the grid is at least the
    /// padding ring and small enough for all later arithmetic, every
    /// node carries exactly the coordinates and magnitude cache its
    /// index owes it, and every cached potential is bounded.
    pub open spec fn wf(self) -> bool {
        &&& self.step == STEP
        &&& 2 <= self.cols <= 822
        &&& 2 <= self.rows <= 822
        &&& self.nodes@.len() == self.cols * self.rows
        &&& forall|i: int|
            0 <= i < self.nodes@.len() ==> {
                &&& (#[trigger] self.nodes@[i]).x == self.node_x(i)
                &&& self.nodes@[i].y == self.node_y(i)
                &&& self.nodes@[i].magnitude == self.node_x(i) * self.node_x(i) + self.node_y(i)
                    * self.node_y(i)
                &&& abs_i(self.nodes@[i].force as int) <= FORCE_LIMIT
            }
    }

    /// The flat index of grid coordinate `(gx, gy)`, each axis clamped
    /// into range first.
    pub open spec fn spec_index(self, gx: int, gy: int) -> int {
        clamp_coord(gy, self.rows as int) * (self.cols as int) + clamp_coord(
            gx,
            self.cols as int,
        )
    }

    /// Whether `(gx, gy)` lies on the outer coordinate ring once
    /// clamped into range: the padding ring of the lattice.
    pub open spec fn spec_on_boundary(self, gx: int, gy: int) -> bool {
        ||| clamp_coord(gx, self.cols as int) == 0
        ||| clamp_coord(gy, self.rows as int) == 0
        ||| clamp_coord(gx, self.cols as int) == self.cols - 1
        ||| clamp_coord(gy, self.rows as int) == self.rows - 1
    }

    /// Sizes a lattice from the surface dimensions (in subpixels),
    /// reserving one padding node per side along each axis; every node
    /// starts unstamped and with no cached potential.
    pub fn new(w: i64, h: i64) -> (lat: Lattice)
        requires
            SCALE <= w <= MAX_DIM,
            SCALE <= h <= MAX_DIM,
        ensures
            lat.wf(),
            lat.cols == w / STEP + 2,
            lat.rows == h / STEP + 2,
            forall|i: int|
                0 <= i < lat.nodes@.len() ==> (#[trigger] lat.nodes@[i]).computed_generation == 0
                    && lat.nodes@[i].force == 0,
    {
        let cols: usize = (w / STEP) as usize + 2;
        let rows: usize = (h / STEP) as usize + 2;
        proof {
            assert((cols as int) * (rows as int) <= 822 * 822) by (nonlinear_arith)
                requires
                    0 <= cols as int <= 822,
                    0 <= rows as int <= 822,
            ;
        }
        let total: usize = cols * rows;
        let mut nodes: Vec<LatticeNode> = Vec::new();
        let mut i: usize = 0;
        while i < total
            invariant
                2 <= cols <= 822,
                2 <= rows <= 822,
                total == cols * rows,
                i <= total,
                nodes@.len() == i,
                forall|j: int|
                    0 <= j < i ==> {
                        &&& (#[trigger] nodes@[j]).x == (j % (cols as int)) * STEP
                        &&& nodes@[j].y == (j / (cols as int)) * STEP
                        &&& nodes@[j].magnitude == nodes@[j].x * nodes@[j].x + nodes@[j].y
                            * nodes@[j].y
                        &&& nodes@[j].computed_generation == 0
                        &&& nodes@[j].force == 0
                    },
            decreases total - i,
        {
            proof {
                assert((i as int) / (cols as int) < rows as int && 0 <= (i as int) / (
                cols as int)) by (nonlinear_arith)
                    requires
                        0 <= i as int,
                        (i as int) < (cols as int) * (rows as int),
                        1 <= cols as int,
                ;
            }
            let cx: i64 = (i % cols) as i64;
            let cy: i64 = (i / cols) as i64;
            let x: i64 = cx * STEP;
            let y: i64 = cy * STEP;
            proof {
                assert(0 <= x * x <= 8_220_000 * 8_220_000 && 0 <= y * y <= 8_220_000
                    * 8_220_000) by (nonlinear_arith)
                    requires
                        0 <= x <= 8_220_000,
                        0 <= y <= 8_220_000,
                ;
            }
            nodes.push(
                LatticeNode { x, y, magnitude: x * x + y * y, computed_generation: 0, force: 0 },
            );
            i += 1;
        }
        Lattice { step: STEP, cols, rows, nodes }
    }

    /// The flat node index for grid coordinate `(gx, gy)`, clamping
    /// each axis into range rather than treating an overrun as an
    /// error.
    pub fn index_of(&self, gx: i64, gy: i64) -> (i: usize)
        requires
            self.wf(),
        ensures
            i == self.spec_index(gx as int, gy as int),
            i < self.nodes@.len(),
    {
        let cx: i64 = if gx < 0 {
            0
        } else if gx >= self.cols as i64 {
            self.cols as i64 - 1
        } else {
            gx
        };
        let cy: i64 = if gy < 0 {
            0
        } else if gy >= self.rows as i64 {
            self.rows as i64 - 1
        } else {
            gy
        };
        proof {
            assert((cy as int) * (self.cols as int) + (cx as int) < (self.rows as int) * (
            self.cols as int) && (cy as int) * (self.cols as int) <= 821 * 822)
                by (nonlinear_arith)
                requires
                    0 <= cy as int <= self.rows as int - 1,
                    0 <= cx as int <= self.cols as int - 1,
                    1 <= self.cols as int <= 822,
                    self.rows as int <= 822,
            ;
            assert(self.nodes@.len() == (self.rows as int) * (self.cols as int))
                by (nonlinear_arith)
                requires
                    self.nodes@.len() == (self.cols as int) * (self.rows as int),
            ;
        }
        (cy as usize) * self.cols + (cx as usize)
    }

    /// Whether `(gx, gy)`, clamped into range, lies on the padding
    /// ring.
    pub fn on_boundary(&self, gx: i64, gy: i64) -> (b: bool)
        requires
            self.wf(),
        ensures
            b == self.spec_on_boundary(gx as int, gy as int),
    {
        let cx: i64 = if gx < 0 {
            0
        } else if gx >= self.cols as i64 {
            self.cols as i64 - 1
        } else {
            gx
        };
        let cy: i64 = if gy < 0 {
            0
        } else if gy >= self.rows as i64 {
            self.rows as i64 - 1
        } else {
            gy
        };
        cx == 0 || cy == 0 || cx == self.cols as i64 - 1 || cy == self.rows as i64 - 1
    }
}

} // verus!
