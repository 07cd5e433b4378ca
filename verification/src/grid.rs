//! The sampled elevation field: one fixed-point elevation per global grid
//! cell, shared by every chunk.
//!
//! All stitching math looks elevations up here by *global* coordinate, so
//! two chunks that meet at a seam read the very same value for a shared
//! cell — the seam cannot drift.

use vstd::prelude::*;
use crate::height::HEIGHT_LIMIT;

verus! {

/// Largest admitted grid side, in cells.
pub const MAX_GRID_SIZE: usize = 4200;

/// A square field of elevations, row-major.
pub struct HeightGrid {
    pub size: usize,
    pub values: Vec<i64>,
}

impl HeightGrid {
    /// The grid is square, bounded, and every elevation is in range.
    pub open spec fn wf(self) -> bool {
        &&& self.size <= MAX_GRID_SIZE
        &&& self.values@.len() == self.size * self.size
        &&& forall|i: int|
            0 <= i < self.values@.len()
                ==> -HEIGHT_LIMIT <= #[trigger] self.values@[i] <= HEIGHT_LIMIT
    }

    /// The elevation of the cell at global `(x, z)`.
    pub open spec fn at(self, x: int, z: int) -> int {
        self.values@[z * self.size + x] as int
    }

    /// Build a grid after validating the dimensions and the elevation
    /// range; returns nothing exactly when the input is out of bounds.
    pub fn new(size: usize, values: Vec<i64>) -> (r: Option<HeightGrid>)
        ensures
            match r {
                Some(g) => {
                    &&& g.size == size
                    &&& g.values@ == values@
                    &&& g.wf()
                },
                None => !(HeightGrid { size, values }).wf(),
            },
    {
        if size > MAX_GRID_SIZE {
            return None;
        }
        proof {
            assert(size * size <= MAX_GRID_SIZE * MAX_GRID_SIZE) by (nonlinear_arith)
                requires
                    size <= MAX_GRID_SIZE,
            ;
        }
        if values.len() != size * size {
            return None;
        }
        let mut i: usize = 0;
        while i < values.len()
            invariant
                i <= values@.len(),
                forall|j: int|
                    0 <= j < i ==> -HEIGHT_LIMIT <= #[trigger] values@[j] <= HEIGHT_LIMIT,
            decreases values@.len() - i,
        {
            if values[i] < -HEIGHT_LIMIT || values[i] > HEIGHT_LIMIT {
                return None;
            }
            i = i + 1;
        }
        Some(HeightGrid { size, values })
    }

    /// Look one elevation up.
    pub fn get(&self, x: usize, z: usize) -> (h: i64)
        requires
            self.wf(),
            x < self.size,
            z < self.size,
        ensures
            h as int == self.at(x as int, z as int),
            -HEIGHT_LIMIT <= h <= HEIGHT_LIMIT,
    {
        proof {
            assert(z * self.size + x < self.size * self.size
                && self.size * self.size <= MAX_GRID_SIZE * MAX_GRID_SIZE) by (nonlinear_arith)
                requires
                    x < self.size,
                    z < self.size,
                    self.size <= MAX_GRID_SIZE,
            ;
        }
        self.values[z * self.size + x]
    }
}

} // verus!
