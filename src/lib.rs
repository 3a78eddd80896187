//! Resolving a world-space point to a cell of a placed grid, and the cell to its occupant.
//!
//! All arithmetic is exact: a grid is placed by an integer affine map and a world point is
//! held in homogeneous integer coordinates, so cell centres and cell boundaries are
//! represented without rounding.

pub mod geometry;
pub mod registry;
pub mod grid;
pub mod pointer;
