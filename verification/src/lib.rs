//! The order-theoretic and combinatorial core of an offline path tracer.
//!
//! Numbers are carried as IEEE 754 binary64 bit patterns ([`scalar::Scalar`]).
//! Everything in this crate that compares, selects, clamps, merges, sorts, descends
//! or indexes is proved. Arithmetic on the numbers is the caller's: its results come
//! in as plain values, or are computed by a function that the caller hands over,
//! and whatever that function returns, the library's part holds.
//!
//! - [`scalar`], [`vec3`], [`ray`]: numbers, triples and rays.
//! - [`aabb`], [`bvh`], [`hittable`], [`hittable_list`]: boxes, the hierarchy, the
//!   contract of a primitive, and the list; with the proof that hierarchy and list
//!   find the same nearest hit.
//! - [`sphere`], [`aarect`], [`cube`], [`medium`], [`translate`], [`rotate`]: the
//!   primitives and wrappers.
//! - [`material`], [`texture`], [`perlin`], [`pdf`], [`onb`]: surfaces and sampling.
//! - [`integrator`], [`render`], [`color`], [`image`]: the estimator, the rows of
//!   the image, and the raster.

pub mod aabb;
pub mod aarect;
pub mod bvh;
pub mod color;
pub mod cube;
pub mod hittable;
pub mod hittable_list;
pub mod image;
pub mod integrator;
pub mod material;
pub mod medium;
pub mod onb;
pub mod pdf;
pub mod perlin;
pub mod ray;
pub mod render;
pub mod rotate;
pub mod scalar;
pub mod sphere;
pub mod texture;
pub mod translate;
pub mod vec3;
