//! The hex coordinate transform: offset (column, row) grid coordinates to
//! lattice positions of flat-topped hexagons.
//!
//! Positions live on an exact integer lattice.  Along `x` the unit is the
//! hexagon's inner radius; along `z` it is half the outer radius.  In those
//! units a cell center sits at `(2 * col + row % 2, 3 * row)`: odd rows are
//! staggered east by half a cell width, and rows advance by one and a half
//! outer radii.  The six corner offsets are lattice vectors too, so every
//! vertex of the terrain has exact integer coordinates (elevation aside).

use vstd::prelude::*;
use vstd::arithmetic::div_mod::lemma_mod_add_multiples_vanish;
use crate::mesh::Point3;

verus! {

/// Largest lattice coordinate magnitude the builders produce; small enough
/// that all lattice arithmetic stays far from overflow.
pub const LATTICE_LIMIT: i64 = 0x40_0000;

/// The lattice `x` of the cell at `(col, row)`: `2 * col + row % 2`, the
/// odd-row stagger of half a cell width (one inner radius).
pub open spec fn hex_x(col: int, row: int) -> int {
    2 * col + row % 2
}

/// The lattice `z` of the cell at row `row`: `3 * row`, i.e. one and a half
/// outer radii per row.
pub open spec fn hex_z(row: int) -> int {
    3 * row
}

/// Corner `i`'s lattice `x` offset from the cell center.  Corners are
/// numbered from the `+z` corner, proceeding in the order that triangulation
/// and all stitching arithmetic assume.
pub open spec fn corner_dx(i: int) -> int {
    if i == 0 {
        0
    } else if i == 1 {
        1
    } else if i == 2 {
        1
    } else if i == 3 {
        0
    } else if i == 4 {
        -1
    } else {
        -1
    }
}

/// Corner `i`'s lattice `z` offset from the cell center.
pub open spec fn corner_dz(i: int) -> int {
    if i == 0 {
        2
    } else if i == 1 {
        1
    } else if i == 2 {
        -1
    } else if i == 3 {
        -2
    } else if i == 4 {
        -1
    } else {
        1
    }
}

/// The corner offset table, exactly `corner_dx` / `corner_dz`.
pub fn corner_offset(i: usize) -> (r: (i64, i64))
    requires
        i < 6,
    ensures
        r.0 == corner_dx(i as int),
        r.1 == corner_dz(i as int),
{
    if i == 0 {
        (0, 2)
    } else if i == 1 {
        (1, 1)
    } else if i == 2 {
        (1, -1)
    } else if i == 3 {
        (0, -2)
    } else if i == 4 {
        (-1, -1)
    } else {
        (-1, 1)
    }
}

/// Map an offset grid coordinate and an elevation to a lattice position.
pub fn to_hex_pos(col: usize, row: usize, elevation: i64) -> (p: Point3)
    requires
        col <= 0x10_0000,
        row <= 0x10_0000,
    ensures
        p.x == hex_x(col as int, row as int),
        p.y == elevation,
        p.z == hex_z(row as int),
{
    Point3 {
        x: 2 * (col as i64) + ((row % 2) as i64),
        y: elevation,
        z: 3 * (row as i64),
    }
}

/// The stagger repeats every two rows: rows `r` and `r + 2` give the same
/// lattice `x` for every column, and differ in `z` by exactly two rows'
/// worth of spacing.
pub proof fn lemma_stagger_period(col: int, row: int)
    requires
        0 <= row,
    ensures
        hex_x(col, row + 2) == hex_x(col, row),
        hex_z(row + 2) == hex_z(row) + 6,
{
    lemma_mod_add_multiples_vanish(row, 2);
}

} // verus!
