//! A path tracer for scenes of spheres.
//!
//! An image is made by sending several random rays through each pixel
//! and following each from bounce to bounce until it leaves the scene or
//! has bounced too often. Every number is a [`scalar::Scalar`], a count of
//! millionths, so that each result is stated exactly: the contracts say
//! which value a function returns, rounding included.
//!
//! Random numbers come from a generator of the `rand` crate that the
//! caller owns, a [`sampling::Sampler`], and hands to each function that
//! draws. Such a function states which results can come back. The
//! steps that it takes with the numbers drawn are functions of their own,
//! which take those numbers as arguments and state the one result that
//! they give.
//!
//! - [`scalar`] and [`vec3`]: the arithmetic.
//! - [`ray`], [`hitable`]: rays, spheres and the search for the nearest
//!   meeting point.
//! - [`sampling`], [`material`]: random numbers and how a surface scatters
//!   a ray.
//! - [`camera`]: from a place on the image to a ray.
//! - [`integrator`]: the light that comes back along a ray.
//! - [`render`], [`ppm`]: the pixels of the image and their text.
//! - [`scene`]: a random scene to look at.

pub mod camera;
pub mod hitable;
pub mod integrator;
pub mod material;
pub mod ppm;
pub mod ray;
pub mod render;
pub mod sampling;
pub mod scalar;
pub mod scene;
pub mod vec3;
