//! A dense 4-row, variable-width column matrix for 3D geometric
//! transformation pipelines, using homogeneous coordinates (x, y, z, w).
//!
//! A `Matrix` is an ordered sequence of columns; every column holds exactly
//! four integer entries. Construction helpers build common transforms
//! (identity, dilation), arithmetic covers elementwise add/subtract, scalar
//! multiplication and the matrix product, and `render` produces a
//! human-readable, write-only textual layout.

pub mod model;
pub mod matrix;
pub mod render;
pub mod laws;

pub use matrix::{Matrix, BoundsError, scale_matrix};
