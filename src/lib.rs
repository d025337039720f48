//! Decision kernel of a Monte Carlo ray tracer.
//!
//! The renderer works in single-precision floating point; this library takes
//! every decision that arithmetic feeds: IEEE-754 ordering on bit patterns
//! (`order`), which root of a ray-sphere quadratic is a hit (`sphere`), which
//! member of a scene is hit first (`scene`), how a surface scatters
//! (`material`), when a light path ends (`path`), and where each pixel goes in
//! the RGBA output (`frame`).

pub mod order;
pub mod sphere;
pub mod scene;
pub mod material;
pub mod path;
pub mod frame;
