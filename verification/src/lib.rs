//! An exact hidden-line renderer: 3D points, segments and triangles already
//! expressed in a projective transform's clip space become a flat 2D vector
//! drawing in which occlusion between triangles is resolved by geometric
//! subdivision, never by sampling.
//!
//! Coordinates are fixed-point integers (`common::UNIT` grid steps per
//! unit), so every geometric predicate is an exact integer comparison.

pub mod common;
pub mod intersect;
pub mod laws;
pub mod primitive;
pub mod render_paths;
pub mod renderer;

pub use common::{Vec2, Vec3, Vec4};
pub use intersect::{split_triangle_by_segment, triangle_in_triangle_2d};
pub use primitive::{EdgeType, Primitive, Tri};
pub use render_paths::{RenderLine, RenderPaths};
pub use renderer::Renderer;
