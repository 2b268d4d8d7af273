//! A Monte-Carlo path tracer over a saturating fixed-point scalar type.
//!
//! All geometry, materials, the recursive integrator and the tile renderer
//! are verified; randomness comes from `rand` behind trusted wrappers, and
//! thread-level parallelism is left to the embedding application.

pub mod camera;
pub mod fx;
pub mod material;
pub mod objects;
pub mod ray;
pub mod rng;
pub mod scene;
pub mod vec3;
