//! Verified core of a ray tracer for scenes of spheres.
//!
//! Numbers are binary64 values held by their bit patterns, as
//! [`scalar::Scalar`]. The crate moves, compares and negates them, which is
//! exact on the pattern. It never does arithmetic that rounds: where an
//! operation needs a sum, a product, a quotient or a root, the caller hands
//! in the function that computes it, and the contract of the operation
//! states which questions to that function lead to the result. Such a
//! contract holds whatever the arithmetic is.
//!
//! What is decided here:
//!
//! - how matrices are multiplied, expanded and inverted ([`algebra`]), and
//!   what the matrices of the transformations hold ([`transform`]);
//! - which intersections a ray has with a sphere and with a scene, in which
//!   order, and which of them it sees ([`ray`], [`world`]);
//! - which terms of the reflection model light a point, and how the lights
//!   of a scene add up ([`light`], [`material`], [`world`]);
//! - the measures of a camera, the rays through its pixels, and which pixel
//!   of an image gets which colour ([`camera`], [`canvas`]);
//! - the text of an exported image ([`ppm`]).

pub mod algebra;
pub mod camera;
pub mod canvas;
pub mod color;
pub mod light;
pub mod material;
pub mod matrix;
pub mod ppm;
pub mod ray;
pub mod scalar;
pub mod transform;
pub mod tuple;
pub mod world;
