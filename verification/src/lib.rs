//! Integer and structural core of a Monte-Carlo path tracer: axis
//! selection, Perlin lattice permutations and corner hashing, the
//! pixel seeding and PPM encoding of the sampler, renderer selection,
//! scene-construction decisions and a few marker types.

pub mod axis;
pub mod rng;
pub mod bytes;
pub mod noise;
pub mod renderer;
pub mod sampler;
pub mod scenes;
pub mod bvh;
pub mod hittable;
pub mod material;
pub mod pdf;
pub mod texture;
