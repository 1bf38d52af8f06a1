//! A Monte-Carlo path tracer over fixed-point arithmetic.
//!
//! Scenes own tables of materials and objects addressed by dense handles;
//! a bounding-volume hierarchy accelerates ray queries over the objects
//! and over the triangles of each mesh; the integrator traces rays
//! recursively, dispatching on a closed family of materials, and the
//! driver accumulates, clamps, gamma-corrects and quantizes samples into
//! a byte raster. Every quantity is a fixed-point number and every random
//! draw comes from an explicit generator, so a render is an exact
//! function of the scene, the raster size and the seed.

pub mod aabb;
pub mod backgrounds;
pub mod bvh;
pub mod camera;
pub mod color;
pub mod fixed;
pub mod material;
pub mod math;
pub mod mesh;
pub mod objects;
pub mod ray;
pub mod render;
pub mod sample;
pub mod scene;
pub mod vector;
pub mod volume;
