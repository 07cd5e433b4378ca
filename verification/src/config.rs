//! Terrain configuration: grid sizes, seed and the four noise layers.
//!
//! Configuration is validated once, up front; every builder requires a valid
//! configuration and is total from there on, so no per-tile recovery path
//! exists anywhere downstream.

use vstd::prelude::*;
use crate::height::{LayerParams, PARAM_LIMIT};

verus! {

/// Largest admitted map side, in cells (chunks per side times cells per
/// chunk side): keeps every vertex index and buffer length comfortably
/// inside `u32` and `usize`.
pub const MAX_MAP_CELLS: usize = 4096;

/// The full terrain configuration.
///
/// `chunk_size` is the number of cells per chunk side and must be even: the
/// staggered hex layout repeats every two rows, and chunks tile the global
/// pattern only when each chunk spans whole periods.  `seed` feeds the noise
/// source that produces the raw samples; the core never reads it, but it is
/// part of the configuration that defines one reproducible map.
#[derive(Clone, Copy, PartialEq, Eq, Structural, Debug)]
pub struct TerrainParams {
    pub chunk_size: usize,
    pub map_size: usize,
    pub seed: u32,
    pub sea_level: i64,
    pub base_layer: LayerParams,
    pub detail_layer: LayerParams,
    pub ridge_a: LayerParams,
    pub ridge_b: LayerParams,
}

impl TerrainParams {
    /// Cells per map side.
    pub open spec fn map_cells(self) -> int {
        self.map_size * self.chunk_size
    }

    /// The configuration bounds under which generation is total: positive
    /// even chunk side, positive map side, bounded overall size, and all
    /// four layers within their arithmetic bounds.
    pub open spec fn valid(self) -> bool {
        &&& 2 <= self.chunk_size
        &&& self.chunk_size % 2 == 0
        &&& 1 <= self.map_size
        &&& self.map_size * self.chunk_size <= MAX_MAP_CELLS
        &&& -PARAM_LIMIT <= self.sea_level <= PARAM_LIMIT
        &&& self.base_layer.valid()
        &&& self.detail_layer.valid()
        &&& self.ridge_a.valid()
        &&& self.ridge_b.valid()
    }

    /// Runtime validation, exactly `valid`: reject a bad configuration once
    /// instead of producing malformed geometry later.
    pub fn validate(&self) -> (b: bool)
        ensures
            b == self.valid(),
    {
        if self.chunk_size < 2 || self.chunk_size % 2 != 0 || self.map_size < 1 {
            return false;
        }
        if self.chunk_size > MAX_MAP_CELLS || self.map_size > MAX_MAP_CELLS {
            proof {
                assert(self.map_size * self.chunk_size > MAX_MAP_CELLS) by (nonlinear_arith)
                    requires
                        1 <= self.map_size,
                        2 <= self.chunk_size,
                        self.chunk_size > MAX_MAP_CELLS || self.map_size > MAX_MAP_CELLS,
                ;
            }
            return false;
        }
        proof {
            assert(self.map_size * self.chunk_size <= MAX_MAP_CELLS * MAX_MAP_CELLS)
                by (nonlinear_arith)
                requires
                    self.map_size <= MAX_MAP_CELLS,
                    self.chunk_size <= MAX_MAP_CELLS,
            ;
        }
        if self.map_size * self.chunk_size > MAX_MAP_CELLS {
            return false;
        }
        -PARAM_LIMIT <= self.sea_level && self.sea_level <= PARAM_LIMIT
            && self.base_layer.validate()
            && self.detail_layer.validate()
            && self.ridge_a.validate()
            && self.ridge_b.validate()
    }
}

} // verus!
