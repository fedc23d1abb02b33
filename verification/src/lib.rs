//! A recursive ray tracer: spheres, planes, point and directional lights and
//! a pinhole camera, rendered with matt shading, hard shadows, mirror
//! reflection and a highlight.
//!
//! All arithmetic is saturating fixed-point arithmetic on [`scalar::Scalar`],
//! so every function is total and its result is stated exactly: a picture is
//! a function of the scene alone, the same on every machine. A formula of
//! the geometry takes its middle steps on exact whole numbers ([`wide`]) and
//! clamps only the quantity that it returns, so squares of distances do not
//! clamp where the distances themselves are in range. The contracts are
//! written over spec functions that mirror the geometry
//! ([`vector::Vector::inner`], [`geometry::Intersectable::hit`],
//! [`world::Scene::nearest`], [`shading::radiance`], [`render::pixel`]).
//!
//! The picture is stored in an `image::DynamicImage`; what is taken on trust
//! about that crate stands in [`raster`].
pub mod colour;
pub mod gamma;
pub mod geometry;
pub mod light;
pub mod point;
pub mod raster;
pub mod render;
pub mod scalar;
pub mod shading;
pub mod vector;
pub mod wide;
pub mod world;
