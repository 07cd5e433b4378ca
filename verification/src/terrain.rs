//! The map builder: a square of chunks, each built independently from the
//! shared elevation grid and placed at its world offset.
//!
//! Chunks only ever read the global grid, so they may be built in any
//! order (or in parallel); the seam between two neighbors is exact because
//! both sides resolve a shared cell to the same global coordinate and the
//! same elevation.

use vstd::prelude::*;
use vstd::arithmetic::div_mod::{lemma_fundamental_div_mod_converse, lemma_mod_multiples_basic};
use crate::chunk::{
    chunk_view, create_chunk, east_step, grid_covers, lemma_cfg_sizes, mesh_matches, tile_center,
};
use crate::config::TerrainParams;
use crate::grid::HeightGrid;
use crate::hex::{hex_x, hex_z, to_hex_pos};
use crate::mesh::{MeshData, Point3, tile_vertex};

verus! {

/// One built chunk: its coordinate, its world placement offset (lattice
/// units, elevation zero), and its mesh buffers.
pub struct ChunkMesh {
    pub chunk_x: usize,
    pub chunk_z: usize,
    pub offset: Point3,
    pub mesh: MeshData,
}

/// The world offset of chunk `(cx, cz)`: the hex transform of its first
/// cell's global grid coordinate.
pub open spec fn chunk_offset(cfg: TerrainParams, cx: int, cz: int) -> Point3 {
    Point3 {
        x: hex_x(cx * cfg.chunk_size, cz * cfg.chunk_size) as i64,
        y: 0,
        z: hex_z(cz * cfg.chunk_size) as i64,
    }
}

/// The hexagonal terrain map builder: a configuration accepted once, up
/// front.
pub struct HexGrid {
    pub params: TerrainParams,
}

impl HexGrid {
    /// Accept a configuration: succeeds exactly on valid parameters.
    pub fn new(params: TerrainParams) -> (r: Option<HexGrid>)
        ensures
            r is Some <==> params.valid(),
            r is Some ==> r->Some_0.params == params,
    {
        if params.validate() {
            Some(HexGrid { params })
        } else {
            None
        }
    }

    /// Build every chunk of the map, row-major by chunk coordinate: entry
    /// `k` is chunk `(k % map_size, k / map_size)`, placed at its offset
    /// and carrying exactly the chunk mesh the shared grid determines.
    pub fn build(&self, grid: &HeightGrid) -> (r: Vec<ChunkMesh>)
        requires
            self.params.valid(),
            grid_covers(self.params, *grid),
        ensures
            r@.len() == self.params.map_size * self.params.map_size,
            forall|k: int|
                0 <= k < r@.len() ==> {
                    let cx = k % (self.params.map_size as int);
                    let cz = k / (self.params.map_size as int);
                    &&& (#[trigger] r@[k]).chunk_x == cx
                    &&& r@[k].chunk_z == cz
                    &&& r@[k].offset == chunk_offset(self.params, cx, cz)
                    &&& r@[k].mesh.wf()
                    &&& mesh_matches(r@[k].mesh@, chunk_view(self.params, *grid, cx, cz))
                },
    {
        let cfg = &self.params;
        let ms = cfg.map_size;
        let cs = cfg.chunk_size;
        let ghost msi = ms as int;
        proof {
            lemma_cfg_sizes(*cfg);
            assert(ms * ms <= 4096 * 4096) by (nonlinear_arith)
                requires
                    ms <= 4096,
            ;
        }
        let mut out: Vec<ChunkMesh> = Vec::new();
        let mut z: usize = 0;
        while z < ms
            invariant
                self.params.valid(),
                grid_covers(self.params, *grid),
                cfg == &self.params,
                ms == cfg.map_size,
                cs == cfg.chunk_size,
                msi == ms as int,
                ms * ms <= 4096 * 4096,
                z <= ms,
                out@.len() == z * ms,
                forall|k: int|
                    0 <= k < out@.len() ==> {
                        let cx = k % msi;
                        let cz = k / msi;
                        &&& (#[trigger] out@[k]).chunk_x == cx
                        &&& out@[k].chunk_z == cz
                        &&& out@[k].offset == chunk_offset(self.params, cx, cz)
                        &&& out@[k].mesh.wf()
                        &&& mesh_matches(out@[k].mesh@, chunk_view(self.params, *grid, cx, cz))
                    },
            decreases ms - z,
        {
            let mut x: usize = 0;
            while x < ms
                invariant
                    self.params.valid(),
                    grid_covers(self.params, *grid),
                    cfg == &self.params,
                    ms == cfg.map_size,
                    cs == cfg.chunk_size,
                    msi == ms as int,
                    ms * ms <= 4096 * 4096,
                    z < ms,
                    x <= ms,
                    out@.len() == z * ms + x,
                    forall|k: int|
                        0 <= k < out@.len() ==> {
                            let cx = k % msi;
                            let cz = k / msi;
                            &&& (#[trigger] out@[k]).chunk_x == cx
                            &&& out@[k].chunk_z == cz
                            &&& out@[k].offset == chunk_offset(self.params, cx, cz)
                            &&& out@[k].mesh.wf()
                            &&& mesh_matches(out@[k].mesh@, chunk_view(self.params, *grid, cx, cz))
                        },
                decreases ms - x,
            {
                proof {
                    assert(z * ms + x < ms * ms && x * cs <= 4096 && z * cs <= 4096)
                        by (nonlinear_arith)
                        requires
                            x < ms,
                            z < ms,
                            ms * cs <= 4096,
                            ms == cfg.map_size,
                            cs == cfg.chunk_size,
                            cfg.map_size * cfg.chunk_size <= 4096,
                    ;
                }
                let mesh = create_chunk(cfg, x, z, grid);
                let offset = to_hex_pos(x * cs, z * cs, 0);
                let entry = ChunkMesh { chunk_x: x, chunk_z: z, offset, mesh };
                out.push(entry);
                proof {
                    lemma_fundamental_div_mod_converse(z as int * msi + x as int, msi, z as int, x as int);
                    assert(x as int * cs as int == (x * cs) as int && z as int * cs as int == (z
                        * cs) as int);
                }
                x = x + 1;
            }
            z = z + 1;
            proof {
                assert(z as int * msi == (z as int - 1) * msi + msi) by (nonlinear_arith);
            }
        }
        out
    }
}

/// Boundary continuity: for a chunk with an east neighbor, the seam
/// vertices it emits for row `z` coincide — in world coordinates, exactly,
/// elevation included — with the neighbor chunk's own corner vertices for
/// its column-0 cell of the same row.  Both sides resolve the shared cell
/// to the same global coordinate and read the same grid value.
pub proof fn lemma_seam_continuity(
    cfg: TerrainParams,
    g: HeightGrid,
    cx: int,
    cz: int,
    z: int,
    b: int,
)
    requires
        cfg.valid(),
        grid_covers(cfg, g),
        0 <= cx,
        cx + 1 < cfg.map_size,
        0 <= cz < cfg.map_size,
        0 <= z < cfg.chunk_size,
    ensures
        ({
            let step = east_step(cfg, g, cx, cz, z, b);
            let off_a = chunk_offset(cfg, cx, cz);
            let off_b = chunk_offset(cfg, cx + 1, cz);
            let nb = tile_center(cfg, g, cx + 1, cz, 0, z);
            &&& off_a.x + step.positions[0].x == off_b.x + tile_vertex(nb, 5).x
            &&& off_a.z + step.positions[0].z == off_b.z + tile_vertex(nb, 5).z
            &&& step.positions[0].y == tile_vertex(nb, 5).y
            &&& off_a.x + step.positions[1].x == off_b.x + tile_vertex(nb, 6).x
            &&& off_a.z + step.positions[1].z == off_b.z + tile_vertex(nb, 6).z
            &&& step.positions[1].y == tile_vertex(nb, 6).y
        }),
{
    let cs = cfg.chunk_size as int;
    lemma_cfg_sizes(cfg);
    assert(cs == 2 * (cs / 2)) by {
        assert(cs % 2 == 0);
    }
    assert(cx * cs == (cx * (cs / 2)) * 2 && cz * cs == (cz * (cs / 2)) * 2 && (cx + 1) * cs == ((
    cx + 1) * (cs / 2)) * 2) by (nonlinear_arith)
        requires
            cs == 2 * (cs / 2),
    ;
    lemma_mod_multiples_basic(cx * (cs / 2), 2);
    lemma_mod_multiples_basic(cz * (cs / 2), 2);
    lemma_mod_multiples_basic((cx + 1) * (cs / 2), 2);
    assert((cx * cs) % 2 == 0 && (cz * cs) % 2 == 0 && ((cx + 1) * cs) % 2 == 0);
    assert((cx + 1) * cs == cx * cs + cs && 0 <= cx * cs <= 4096 && 0 <= cz * cs <= 4096)
        by (nonlinear_arith)
        requires
            0 <= cx,
            0 <= cz,
            cx + 1 <= cfg.map_size,
            cz < cfg.map_size,
            cs == cfg.chunk_size,
            cfg.map_size * cfg.chunk_size <= 4096,
            2 <= cs,
    ;
}

} // verus!
