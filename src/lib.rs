//! A small 2D simulation core: integer vector math, narrow-phase collision
//! detection between circles and axis-aligned rectangles, a semi-implicit Euler
//! integrator, collision repulsion, and an index-based entity store that runs
//! them once per tick.
use vstd::prelude::*;

pub mod animation;
pub mod collider;
pub mod image;
pub mod input;
pub mod physics;
pub mod player;
pub mod render;
pub mod roots;
pub mod sprite;
pub mod transform;
pub mod vector;
pub mod world;

verus! {

} // verus!
