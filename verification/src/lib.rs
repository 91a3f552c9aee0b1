//! A lava-lamp metaball core: bouncing circular field sources, a fixed
//! sampling lattice with per-node caching, a marching-squares contour
//! tracer, and a frame driver that yields one closed outline per ball.
//!
//! All geometry is carried in fixed-point integers: coordinates in
//! subpixels (1/1000 of a pixel) and field potentials in millionths, so
//! that every computation is exact and free of floating-point drift.
//! Rasterisation is left to the caller, which receives ordered contour
//! point sequences each frame.

pub mod ball;
pub mod field;
pub mod fixed;
pub mod lamp;
pub mod lattice;
pub mod point;
pub mod rng;
pub mod tracer;

pub use ball::Ball;
pub use lamp::ConfigError;
pub use lamp::LavaLamp;
pub use lattice::Lattice;
pub use lattice::LatticeNode;
pub use point::PathPoint;
pub use point::Point;
pub use tracer::Dir;
pub use tracer::StepResult;
