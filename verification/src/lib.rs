//! Delaunay triangulation of a finite 2D point set, exposed as a navigable
//! half-edge mesh.
//!
//! The crate has three layers:
//! - [`geometry`]: exact integer predicates over 2D points (orientation,
//!   in-circle, circumcenter) on a bounded coordinate grid;
//! - [`graph_datastructure`]: a passive, index-addressed planar subdivision
//!   (vertices, paired half-edges, faces) with read-only traversal views;
//! - [`delaunay`]: the incremental builder: seed-triangle selection, sorted
//!   insertion, boundary-visibility walking and Lawson-flip legalization.
//!
//! All predicates use exact integer arithmetic on coordinates bounded by
//! [`geometry::COORD_BOUND`], so the numeric kernel is robust by construction.

pub mod delaunay;
pub mod geometry;
pub mod graph_datastructure;
pub mod settings;
