//! Procedural hexagonal terrain core.
//!
//! The library builds a tileable hexagonal terrain mesh from a deterministic
//! elevation field: it lays out a staggered grid of flat-topped hex cells,
//! emits one vertex fan per cell, welds vertical side walls between adjacent
//! cells exactly where their elevations differ, and stitches the seams
//! between fixed-size chunks so that independently built chunks meet without
//! gaps.
//!
//! All geometry lives on an exact integer lattice: `x` is counted in units of
//! the hexagon's inner radius, `z` in units of half the outer radius, and
//! elevations are fixed-point numbers with sixteen fractional bits.  A
//! rendering layer scales these to floating point; the core itself never
//! loses a bit, which is what makes the seam-stitching guarantees provable.

pub mod fx;
pub mod chunk;
pub mod config;
pub mod height;
pub mod grid;
pub mod hex;
pub mod mesh;
pub mod terrain;
