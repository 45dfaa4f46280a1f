//! Geodesic tracing on implicit surfaces: the control logic.
//!
//! A surface is the zero set of a scalar field. A path is traced over it by
//! stepping along the current heading and snapping back onto the surface along
//! the local normal. This crate holds the discrete side of that scheme: the
//! bounded root search, the retry policy of a step, the construction of a path
//! up to the edge of the visible domain, the reference grid, the fan of rays and
//! the index buffers handed to a renderer. All arithmetic on coordinates is
//! reached through the [`geometry::Geometry`] trait, so every function here is
//! verified for any implementation of the numerics.
pub mod geometry;
pub mod intersect;
pub mod stepper;
pub mod path;
pub mod grid;
pub mod fan;
pub mod mesh;
pub mod tracer;
