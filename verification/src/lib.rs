//! Approximates a raster image by semi-transparent shapes, found one at a time by a seeded hill
//! climb: a shape is generated at random, coloured from the target, and mutated for as long as
//! that improves the match; it is kept if the approximation with it is closer to the target than
//! the approximation without it.
//!
//! Everything here is integer arithmetic and is verified. Coordinates are whole pixels, rotation
//! goes through a fixed-point sine table, curves are sampled at rational parameters, and two
//! approximations are compared by their sums of squared channel differences, which order them
//! as their root-mean-square errors do. What is taken on trust are four calls into other crates,
//! each behind a wrapper that says what is assumed of it: seeding and drawing from the generator
//! and reading the clock in `random`, and blending one pixel into another in `canvas`.
//!
//! Random draws come from one `rand::rngs::StdRng`, which the caller seeds and hands to every
//! function that draws. The perturbation of a coordinate or a size is the caller's too: the
//! functions that mutate take a `noise` function from the generator to a whole number of
//! pixels, meant to be a normal deviate of mean 0 and standard deviation 16 cut to an integer.
//! Whatever it returns, the result of a mutation is held in its range and checked for validity.

pub mod arithmetic;
pub mod canvas;
pub mod cubic_bezier;
pub mod curve;
pub mod ellipse;
pub mod line;
pub mod point;
pub mod primitive_image;
pub mod quadratic_bezier;
pub mod random;
pub mod raster;
pub mod rectangle;
pub mod runner;
pub mod scale;
pub mod shape;
pub mod svg;
pub mod triangle;
pub mod utilities;
