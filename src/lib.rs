//! Ribbon surfaces: a grid of 3D points turned into a triangulated mesh with
//! arc-length texture coordinates, whose vertex positions can be replaced frame
//! by frame without touching its topology.
//!
//! Coordinates are fixed-point integers (`ONE` units per scene unit), and texture
//! coordinates are exact fractions, so every result is stated and proved exactly.

pub mod geometry;
pub mod grid;
pub mod topology;
pub mod uv;
pub mod mesh;
pub mod paths;
pub mod laws;

pub use geometry::{Point, ONE, isqrt, segment_length};
pub use grid::flatten_rows;
pub use topology::ribbon_index_list;
pub use uv::{Uv, UvPolicy, arc_tables};
pub use mesh::{RibbonMesh, RibbonError, build_ribbon, build_ribbon_with, morph_ribbon, check_grid};
pub use paths::{generate_paths, update_paths};
