//! Chunk assembly: a fixed-size square of hex cells built into one mesh,
//! with vertical side walls welded between adjacent cells of different
//! elevation.
//!
//! Cell `(x, z)` of a chunk occupies vertex slots `7 * (z * chunk_size + x)`
//! through six more: chunk-interior adjacency is pure `(col, row)`
//! arithmetic, never a search.  The staggered layout gives each cell an
//! east neighbor and, depending on row parity, two of the cells on the row
//! below; each unordered adjacent pair is visited exactly once.

use vstd::prelude::*;
use vstd::arithmetic::div_mod::lemma_fundamental_div_mod_converse;
use crate::config::TerrainParams;
use crate::grid::HeightGrid;
use crate::hex::{hex_x, hex_z, corner_dx, corner_dz, corner_offset, to_hex_pos};
use crate::mesh::{
    MeshData, MeshView, Point3, Uv, mv_app, mv_empty, tile_mv, tile_vertex, tile_uv, tile_normal,
    fan_index, create_tile, create_quad, push_vertex,
};

verus! {

/// The elevation grid covers the whole map, plus the one extra column that
/// the south-east diagonal stitching probes past the map's edge.
pub open spec fn grid_covers(cfg: TerrainParams, g: HeightGrid) -> bool {
    &&& g.wf()
    &&& g.size >= cfg.map_cells() + 1
}

/// Elevation of chunk `(cx, cz)`'s local cell `(x, z)`, read at its global
/// coordinate.
pub open spec fn tile_h(cfg: TerrainParams, g: HeightGrid, cx: int, cz: int, x: int, z: int) -> int {
    g.at(cx * cfg.chunk_size + x, cz * cfg.chunk_size + z)
}

/// The lattice center of local cell `(x, z)`: chunk-local position, global
/// elevation.
pub open spec fn tile_center(
    cfg: TerrainParams,
    g: HeightGrid,
    cx: int,
    cz: int,
    x: int,
    z: int,
) -> Point3 {
    Point3 {
        x: hex_x(x, z) as i64,
        y: tile_h(cfg, g, cx, cz, x, z) as i64,
        z: hex_z(z) as i64,
    }
}

/// All tile-fan positions of one chunk, in row-major cell order.
pub open spec fn chunk_tiles_positions(
    cfg: TerrainParams,
    g: HeightGrid,
    cx: int,
    cz: int,
) -> Seq<Point3> {
    let cs = cfg.chunk_size as int;
    Seq::new(
        (7 * cs * cs) as nat,
        |n: int| tile_vertex(tile_center(cfg, g, cx, cz, (n / 7) % cs, (n / 7) / cs), n % 7),
    )
}

/// All tile-fan UVs of one chunk.
pub open spec fn chunk_tiles_uvs(cfg: TerrainParams, g: HeightGrid, cx: int, cz: int) -> Seq<Uv> {
    let cs = cfg.chunk_size as int;
    Seq::new(
        (7 * cs * cs) as nat,
        |n: int| tile_uv(tile_center(cfg, g, cx, cz, (n / 7) % cs, (n / 7) / cs), n % 7),
    )
}

/// All tile-fan normals of one chunk.
pub open spec fn chunk_tiles_normals(
    cfg: TerrainParams,
    g: HeightGrid,
    cx: int,
    cz: int,
) -> Seq<Point3> {
    let cs = cfg.chunk_size as int;
    Seq::new(
        (7 * cs * cs) as nat,
        |n: int| tile_normal(tile_center(cfg, g, cx, cz, (n / 7) % cs, (n / 7) / cs), n % 7),
    )
}

/// All tile-fan indices of one chunk.
pub open spec fn chunk_tiles_indices(cs: int) -> Seq<u32> {
    Seq::new((18 * cs * cs) as nat, |n: int| fan_index(7 * (n / 18), n % 18) as u32)
}

/// A valid configuration bounds both sides and their product.
pub proof fn lemma_cfg_sizes(cfg: TerrainParams)
    requires
        cfg.valid(),
    ensures
        cfg.chunk_size <= 4096,
        cfg.map_size <= 4096,
        cfg.map_cells() <= 4096,
{
    assert(cfg.chunk_size <= 4096 && cfg.map_size <= 4096) by (nonlinear_arith)
        requires
            1 <= cfg.map_size,
            2 <= cfg.chunk_size,
            cfg.map_size * cfg.chunk_size <= 4096,
    ;
}

/// Cell index `k = z * cs + x` stays below `cs * cs` and decomposes back
/// into its row and column.
proof fn lemma_cell_index(cs: int, x: int, z: int)
    requires
        0 <= x < cs,
        0 <= z < cs,
    ensures
        0 <= z * cs + x < cs * cs,
        (z * cs + x) % cs == x,
        (z * cs + x) / cs == z,
{
    assert(0 <= z * cs + x && z * cs + x < cs * cs) by (nonlinear_arith)
        requires
            0 <= x < cs,
            0 <= z < cs,
    ;
    lemma_fundamental_div_mod_converse(z * cs + x, cs, z, x);
}

/// Vertex `7 * k + j` of the tile closed forms is vertex `j` of cell `k`.
proof fn lemma_tiles_at(cfg: TerrainParams, g: HeightGrid, cx: int, cz: int, x: int, z: int, j: int)
    requires
        cfg.valid(),
        0 <= x < cfg.chunk_size,
        0 <= z < cfg.chunk_size,
        0 <= j < 7,
    ensures
        ({
            let cs = cfg.chunk_size as int;
            let n = 7 * (z * cs + x) + j;
            &&& 0 <= n < 7 * cs * cs
            &&& chunk_tiles_positions(cfg, g, cx, cz)[n]
                == tile_vertex(tile_center(cfg, g, cx, cz, x, z), j)
            &&& chunk_tiles_uvs(cfg, g, cx, cz)[n] == tile_uv(tile_center(cfg, g, cx, cz, x, z), j)
            &&& chunk_tiles_normals(cfg, g, cx, cz)[n]
                == tile_normal(tile_center(cfg, g, cx, cz, x, z), j)
            &&& chunk_tiles_positions(cfg, g, cx, cz)[n].y
                == tile_h(cfg, g, cx, cz, x, z) as i64
        }),
{
    let cs = cfg.chunk_size as int;
    let k = z * cs + x;
    let n = 7 * k + j;
    lemma_cell_index(cs, x, z);
    assert(7 * k + j < 7 * cs * cs) by (nonlinear_arith)
        requires
            0 <= k < cs * cs,
            0 <= j < 7,
    ;
    lemma_fundamental_div_mod_converse(n, 7, k, j);
    assert(n / 7 == k && n % 7 == j && k % cs == x && k / cs == z);
    assert(chunk_tiles_positions(cfg, g, cx, cz)[n] == tile_vertex(
        tile_center(cfg, g, cx, cz, x, z),
        j,
    ));
    assert(chunk_tiles_uvs(cfg, g, cx, cz)[n] == tile_uv(tile_center(cfg, g, cx, cz, x, z), j));
    assert(chunk_tiles_normals(cfg, g, cx, cz)[n] == tile_normal(
        tile_center(cfg, g, cx, cz, x, z),
        j,
    ));
}

/// One more tile extends the closed-form prefixes by one seven-vertex
/// block and eighteen fan indices.
proof fn lemma_tiles_prefix_step(
    cfg: TerrainParams,
    g: HeightGrid,
    cx: int,
    cz: int,
    x: int,
    z: int,
)
    requires
        cfg.valid(),
        0 <= x < cfg.chunk_size,
        0 <= z < cfg.chunk_size,
    ensures
        ({
            let cs = cfg.chunk_size as int;
            let k = z * cs + x;
            let c = tile_center(cfg, g, cx, cz, x, z);
            &&& 0 <= k < cs * cs
            &&& chunk_tiles_positions(cfg, g, cx, cz).take(7 * (k + 1))
                == chunk_tiles_positions(cfg, g, cx, cz).take(7 * k)
                    + tile_mv(c, 7 * k).positions
            &&& chunk_tiles_uvs(cfg, g, cx, cz).take(7 * (k + 1))
                == chunk_tiles_uvs(cfg, g, cx, cz).take(7 * k) + tile_mv(c, 7 * k).uvs
            &&& chunk_tiles_normals(cfg, g, cx, cz).take(7 * (k + 1))
                == chunk_tiles_normals(cfg, g, cx, cz).take(7 * k) + tile_mv(c, 7 * k).normals
            &&& chunk_tiles_indices(cs).take(18 * (k + 1))
                == chunk_tiles_indices(cs).take(18 * k) + tile_mv(c, 7 * k).indices
        }),
{
    let cs = cfg.chunk_size as int;
    let k = z * cs + x;
    let c = tile_center(cfg, g, cx, cz, x, z);
    let ps = chunk_tiles_positions(cfg, g, cx, cz);
    let us = chunk_tiles_uvs(cfg, g, cx, cz);
    let ns = chunk_tiles_normals(cfg, g, cx, cz);
    let is = chunk_tiles_indices(cs);
    lemma_cell_index(cs, x, z);
    assert(7 * (k + 1) <= 7 * cs * cs && 18 * (k + 1) <= 18 * cs * cs) by (nonlinear_arith)
        requires
            0 <= k < cs * cs,
    ;
    assert(ps.len() == 7 * cs * cs && us.len() == 7 * cs * cs && ns.len() == 7 * cs * cs
        && is.len() == 18 * cs * cs);
    assert forall|n: int| #![trigger ps.take(7 * (k + 1))[n]] 0 <= n < 7 * (k + 1) implies ps.take(7 * (k + 1))[n] == (ps.take(7 * k)
        + tile_mv(c, 7 * k).positions)[n] && us.take(7 * (k + 1))[n] == (us.take(7 * k) + tile_mv(
        c,
        7 * k,
    ).uvs)[n] && ns.take(7 * (k + 1))[n] == (ns.take(7 * k) + tile_mv(c, 7 * k).normals)[n] by {
        if n < 7 * k {
            assert(ps.take(7 * (k + 1))[n] == ps[n] && ps.take(7 * k)[n] == ps[n]);
            assert(us.take(7 * (k + 1))[n] == us[n] && us.take(7 * k)[n] == us[n]);
            assert(ns.take(7 * (k + 1))[n] == ns[n] && ns.take(7 * k)[n] == ns[n]);
        } else {
            let j = n - 7 * k;
            lemma_tiles_at(cfg, g, cx, cz, x, z, j);
            assert(tile_mv(c, 7 * k).positions[j] == tile_vertex(c, j));
            assert(tile_mv(c, 7 * k).uvs[j] == tile_uv(c, j));
            assert(tile_mv(c, 7 * k).normals[j] == tile_normal(c, j));
        }
    }
    assert(ps.take(7 * (k + 1)) =~= ps.take(7 * k) + tile_mv(c, 7 * k).positions);
    assert(us.take(7 * (k + 1)) =~= us.take(7 * k) + tile_mv(c, 7 * k).uvs);
    assert(ns.take(7 * (k + 1)) =~= ns.take(7 * k) + tile_mv(c, 7 * k).normals);
    assert forall|n: int| #![trigger is.take(18 * (k + 1))[n]] 0 <= n < 18 * (k + 1) implies is.take(18 * (k + 1))[n] == (is.take(18 * k)
        + tile_mv(c, 7 * k).indices)[n] by {
        if n < 18 * k {
            assert(is.take(18 * (k + 1))[n] == is[n] && is.take(18 * k)[n] == is[n]);
        } else {
            let j = n - 18 * k;
            lemma_fundamental_div_mod_converse(n, 18, k, j);
            assert(is[n] == fan_index(7 * (n / 18), n % 18) as u32);
            assert(tile_mv(c, 7 * k).indices[j] == fan_index(7 * k, j) as u32);
        }
    }
    assert(is.take(18 * (k + 1)) =~= is.take(18 * k) + tile_mv(c, 7 * k).indices);
}

/// The indices one side wall contributes, given the two cells' elevations
/// and the four corner slots: nothing between equal elevations, a quad
/// otherwise.
pub open spec fn wall6(h1: int, h2: int, v1: int, v2: int, v3: int, v4: int) -> Seq<u32> {
    if h1 == h2 {
        Seq::empty()
    } else {
        seq![v1 as u32, v3 as u32, v2 as u32, v1 as u32, v4 as u32, v3 as u32]
    }
}

/// A wall stands exactly between different elevations.
pub proof fn lemma_wall_iff_heights_differ(h1: int, h2: int, v1: int, v2: int, v3: int, v4: int)
    ensures
        wall6(h1, h2, v1, v2, v3, v4).len() == 0 <==> h1 == h2,
        h1 != h2 ==> wall6(h1, h2, v1, v2, v3, v4).len() == 6,
{
}

/// The side walls cell `(x, z)` contributes inside its chunk: toward its
/// east neighbor, and toward its one or two neighbors on the row below,
/// following the row-parity adjacency of the staggered layout.
pub open spec fn tile_walls(
    cfg: TerrainParams,
    g: HeightGrid,
    cx: int,
    cz: int,
    x: int,
    z: int,
) -> Seq<u32> {
    let cs = cfg.chunk_size as int;
    let base = 7 * (z * cs + x);
    let h = tile_h(cfg, g, cx, cz, x, z);
    (if x < cs - 1 {
        wall6(h, tile_h(cfg, g, cx, cz, x + 1, z), base + 2, base + 3, base + 12, base + 13)
    } else {
        Seq::empty()
    }) + (if z < cs - 1 && z % 2 == 0 {
        wall6(
            h,
            tile_h(cfg, g, cx, cz, x, z + 1),
            base + 1,
            base + 2,
            base + 7 * cs + 4,
            base + 7 * cs + 5,
        )
    } else if z < cs - 1 && z % 2 == 1 && x < cs - 1 {
        wall6(
            h,
            tile_h(cfg, g, cx, cz, x + 1, z + 1),
            base + 1,
            base + 2,
            base + 7 * cs + 11,
            base + 7 * cs + 12,
        )
    } else {
        Seq::empty()
    }) + (if x > 0 && z % 2 == 0 {
        wall6(
            h,
            tile_h(cfg, g, cx, cz, x - 1, z + 1),
            base + 6,
            base + 1,
            base + 7 * cs - 4,
            base + 7 * cs - 3,
        )
    } else {
        Seq::empty()
    }) + (if z % 2 == 1 && z < cs - 1 {
        wall6(
            h,
            tile_h(cfg, g, cx, cz, x, z + 1),
            base + 6,
            base + 1,
            base + 7 * cs + 3,
            base + 7 * cs + 4,
        )
    } else {
        Seq::empty()
    })
}

/// The intra-chunk walls of the first `k` cells, in row-major order.
pub open spec fn walls_upto(cfg: TerrainParams, g: HeightGrid, cx: int, cz: int, k: int) -> Seq<
    u32,
>
    decreases k,
{
    let cs = cfg.chunk_size as int;
    if k <= 0 {
        Seq::empty()
    } else {
        walls_upto(cfg, g, cx, cz, k - 1) + tile_walls(cfg, g, cx, cz, (k - 1) % cs, (k - 1) / cs)
    }
}

/// A seam vertex: corner `i` of the cell at local `(x, z)`, lifted to the
/// elevation `h` of the neighboring cell across the seam.  The staggered
/// layout makes the two cells' facing corners share their lattice `(x, z)`,
/// so the neighbor's corner positions can be emitted from this cell's own
/// corner offsets.
pub open spec fn stitch_vertex(x: int, z: int, i: int, h: int) -> Point3 {
    Point3 {
        x: (hex_x(x, z) + corner_dx(i)) as i64,
        y: h as i64,
        z: (hex_z(z) + corner_dz(i)) as i64,
    }
}

/// The UV of a seam vertex: its horizontal projection.
pub open spec fn stitch_uv(x: int, z: int, i: int) -> Uv {
    Uv { u: (hex_x(x, z) + corner_dx(i)) as i64, v: (hex_z(z) + corner_dz(i)) as i64 }
}

/// The normal direction of a seam vertex.
pub open spec fn stitch_normal(i: int, h: int) -> Point3 {
    Point3 { x: corner_dx(i) as i64, y: h as i64, z: corner_dz(i) as i64 }
}

/// Everything one east-seam row contributes, starting at vertex slot `b`:
/// the east neighbor's two facing corners and their wall, plus — on odd
/// rows — the two diagonal neighbors' corners and walls.
pub open spec fn east_step(cfg: TerrainParams, g: HeightGrid, cx: int, cz: int, z: int, b: int) -> MeshView {
    let cs = cfg.chunk_size as int;
    let x = cs - 1;
    let tbase = 7 * (z * cs + x);
    let h = tile_h(cfg, g, cx, cz, x, z);
    let he = g.at(cx * cs + cs, cz * cs + z);
    let hne = g.at(cx * cs + cs, cz * cs + z - 1);
    let hse = g.at(cx * cs + cs, cz * cs + z + 1);
    let part2 = z % 2 == 1 && z > 0;
    let part3 = z % 2 == 1 && z < cs - 1;
    let b3 = b + 2 + (if part2 { 2int } else { 0int });
    MeshView {
        positions: seq![stitch_vertex(x, z, 2, he), stitch_vertex(x, z, 1, he)] + (if part2 {
            seq![stitch_vertex(x, z, 2, hne), stitch_vertex(x, z, 3, hne)]
        } else {
            Seq::empty()
        }) + (if part3 {
            seq![stitch_vertex(x, z, 0, hse), stitch_vertex(x, z, 1, hse)]
        } else {
            Seq::empty()
        }),
        uvs: seq![stitch_uv(x, z, 2), stitch_uv(x, z, 1)] + (if part2 {
            seq![stitch_uv(x, z, 2), stitch_uv(x, z, 3)]
        } else {
            Seq::empty()
        }) + (if part3 {
            seq![stitch_uv(x, z, 0), stitch_uv(x, z, 1)]
        } else {
            Seq::empty()
        }),
        normals: seq![stitch_normal(2, he), stitch_normal(1, he)] + (if part2 {
            seq![stitch_normal(2, hne), stitch_normal(3, hne)]
        } else {
            Seq::empty()
        }) + (if part3 {
            seq![stitch_normal(0, hse), stitch_normal(1, hse)]
        } else {
            Seq::empty()
        }),
        indices: wall6(h, he, tbase + 2, tbase + 3, b, b + 1) + (if part2 {
            wall6(h, hne, tbase + 3, tbase + 4, b + 3, b + 2)
        } else {
            Seq::empty()
        }) + (if part3 {
            wall6(h, hse, tbase + 1, tbase + 2, b3 + 1, b3)
        } else {
            Seq::empty()
        }),
    }
}

/// The east seam over the first `z` rows, with vertex slots starting at
/// `b0`.
pub open spec fn east_upto(cfg: TerrainParams, g: HeightGrid, cx: int, cz: int, z: int, b0: int) -> MeshView
    decreases z,
{
    if z <= 0 {
        mv_empty()
    } else {
        let prev = east_upto(cfg, g, cx, cz, z - 1, b0);
        mv_app(prev, east_step(cfg, g, cx, cz, z - 1, b0 + prev.positions.len()))
    }
}

/// Everything one south-seam column contributes, starting at vertex slot
/// `b`: the two cells below the last row's cell `x` (straight and
/// south-east diagonal), their corners and walls.
pub open spec fn south_step(cfg: TerrainParams, g: HeightGrid, cx: int, cz: int, x: int, b: int) -> MeshView {
    let cs = cfg.chunk_size as int;
    let z = cs - 1;
    let tbase = 7 * (z * cs + x);
    let h = tile_h(cfg, g, cx, cz, x, z);
    let hs = g.at(cx * cs + x, cz * cs + cs);
    let hsd = g.at(cx * cs + x + 1, cz * cs + cs);
    MeshView {
        positions: seq![
            stitch_vertex(x, z, 0, hs),
            stitch_vertex(x, z, 5, hs),
            stitch_vertex(x, z, 0, hsd),
            stitch_vertex(x, z, 1, hsd),
        ],
        uvs: seq![stitch_uv(x, z, 0), stitch_uv(x, z, 5), stitch_uv(x, z, 0), stitch_uv(x, z, 1)],
        normals: seq![
            stitch_normal(0, hs),
            stitch_normal(5, hs),
            stitch_normal(0, hsd),
            stitch_normal(1, hsd),
        ],
        indices: wall6(h, hs, tbase + 6, tbase + 1, b, b + 1) + wall6(
            h,
            hsd,
            tbase + 1,
            tbase + 2,
            b + 3,
            b + 2,
        ),
    }
}

/// The south seam over the first `x` columns, with vertex slots starting
/// at `b0`.
pub open spec fn south_upto(cfg: TerrainParams, g: HeightGrid, cx: int, cz: int, x: int, b0: int) -> MeshView
    decreases x,
{
    if x <= 0 {
        mv_empty()
    } else {
        let prev = south_upto(cfg, g, cx, cz, x - 1, b0);
        mv_app(prev, south_step(cfg, g, cx, cz, x - 1, b0 + prev.positions.len()))
    }
}

/// The whole east seam of chunk `(cx, cz)`: present exactly when an east
/// neighbor chunk exists.
pub open spec fn chunk_east(cfg: TerrainParams, g: HeightGrid, cx: int, cz: int) -> MeshView {
    let cs = cfg.chunk_size as int;
    if cx < cfg.map_size - 1 {
        east_upto(cfg, g, cx, cz, cs, 7 * cs * cs)
    } else {
        mv_empty()
    }
}

/// The whole south seam of chunk `(cx, cz)`: present exactly when a south
/// neighbor chunk exists.
pub open spec fn chunk_south(cfg: TerrainParams, g: HeightGrid, cx: int, cz: int) -> MeshView {
    let cs = cfg.chunk_size as int;
    let b = 7 * cs * cs + chunk_east(cfg, g, cx, cz).positions.len();
    if cz < cfg.map_size - 1 {
        south_upto(cfg, g, cx, cz, cs, b)
    } else {
        mv_empty()
    }
}

/// One chunk's complete mesh: all tile fans, all intra-chunk walls, then
/// the east and south seams.
pub open spec fn chunk_view(cfg: TerrainParams, g: HeightGrid, cx: int, cz: int) -> MeshView {
    let cs = cfg.chunk_size as int;
    let tiles = MeshView {
        positions: chunk_tiles_positions(cfg, g, cx, cz),
        uvs: chunk_tiles_uvs(cfg, g, cx, cz),
        normals: chunk_tiles_normals(cfg, g, cx, cz),
        indices: chunk_tiles_indices(cs) + walls_upto(cfg, g, cx, cz, cs * cs),
    };
    mv_app(mv_app(tiles, chunk_east(cfg, g, cx, cz)), chunk_south(cfg, g, cx, cz))
}

/// Two mesh views agree buffer by buffer.
pub open spec fn mesh_matches(m: MeshView, v: MeshView) -> bool {
    &&& m.positions == v.positions
    &&& m.uvs == v.uvs
    &&& m.normals == v.normals
    &&& m.indices == v.indices
}

/// Append one seam vertex: corner `i` of local cell `(x, z)` at elevation
/// `h`.
fn push_stitch_vertex(mesh: &mut MeshData, x: usize, z: usize, i: usize, h: i64)
    requires
        old(mesh).wf(),
        x <= 4096,
        z <= 4096,
        i < 6,
    ensures
        final(mesh).wf(),
        final(mesh)@.positions == old(mesh)@.positions.push(
            stitch_vertex(x as int, z as int, i as int, h as int),
        ),
        final(mesh)@.uvs == old(mesh)@.uvs.push(stitch_uv(x as int, z as int, i as int)),
        final(mesh)@.normals == old(mesh)@.normals.push(stitch_normal(i as int, h as int)),
        final(mesh)@.indices == old(mesh)@.indices,
{
    let (dx, dz) = corner_offset(i);
    let hx: i64 = 2 * (x as i64) + ((z % 2) as i64);
    let hz: i64 = 3 * (z as i64);
    let p = Point3 { x: hx + dx, y: h, z: hz + dz };
    push_vertex(mesh, p, Uv { u: p.x, v: p.z }, Point3 { x: dx, y: h, z: dz });
}

/// Emit cell `(x, z)`'s intra-chunk side walls.
///
/// The mesh's vertex buffers must hold exactly the chunk's tile fans; only
/// the index buffer grows, by `tile_walls`.
#[verifier::rlimit(100)]
fn add_tile_sides(
    cfg: &TerrainParams,
    grid: &HeightGrid,
    c_x: usize,
    c_z: usize,
    x: usize,
    z: usize,
    mesh: &mut MeshData,
)
    requires
        cfg.valid(),
        grid_covers(*cfg, *grid),
        c_x < cfg.map_size,
        c_z < cfg.map_size,
        x < cfg.chunk_size,
        z < cfg.chunk_size,
        old(mesh).wf(),
        old(mesh)@.positions == chunk_tiles_positions(*cfg, *grid, c_x as int, c_z as int),
    ensures
        final(mesh).wf(),
        final(mesh)@.positions == old(mesh)@.positions,
        final(mesh)@.uvs == old(mesh)@.uvs,
        final(mesh)@.normals == old(mesh)@.normals,
        final(mesh)@.indices == old(mesh)@.indices + tile_walls(
            *cfg,
            *grid,
            c_x as int,
            c_z as int,
            x as int,
            z as int,
        ),
{
    let ghost cxi = c_x as int;
    let ghost czi = c_z as int;
    let cs = cfg.chunk_size;
    proof {
        lemma_cfg_sizes(*cfg);
        assert(z * cs + x < cs * cs && cs * cs <= 4096 * 4096) by (nonlinear_arith)
            requires
                x < cs,
                z < cs,
                cs <= 4096,
        ;
    }
    let base: usize = 7 * (z * cs + x);
    let b: u32 = base as u32;
    let ghost h = tile_h(*cfg, *grid, cxi, czi, x as int, z as int);
    let ghost idx0 = old(mesh)@.indices;
    let ghost piece1 = if x < cfg.chunk_size - 1 {
        wall6(
            h,
            tile_h(*cfg, *grid, cxi, czi, x + 1, z as int),
            base + 2,
            base + 3,
            base + 12,
            base + 13,
        )
    } else {
        Seq::<u32>::empty()
    };
    proof {
        lemma_tiles_at(*cfg, *grid, cxi, czi, x as int, z as int, 0);
    }
    if x < cs - 1 {
        proof {
            lemma_tiles_at(*cfg, *grid, cxi, czi, x as int, z as int, 2);
            lemma_tiles_at(*cfg, *grid, cxi, czi, x as int + 1, z as int, 5);
            lemma_tiles_at(*cfg, *grid, cxi, czi, x as int + 1, z as int, 6);
        }
        create_quad(mesh, b + 2, b + 3, b + 12, b + 13);
        proof {
            assert(mesh@.indices =~= idx0 + piece1);
        }
    }
    let ghost piece2 = if z < cfg.chunk_size - 1 && z % 2 == 0 {
        wall6(
            h,
            tile_h(*cfg, *grid, cxi, czi, x as int, z + 1),
            base + 1,
            base + 2,
            base + 7 * cs + 4,
            base + 7 * cs + 5,
        )
    } else if z < cfg.chunk_size - 1 && z % 2 == 1 && x < cfg.chunk_size - 1 {
        wall6(
            h,
            tile_h(*cfg, *grid, cxi, czi, x + 1, z + 1),
            base + 1,
            base + 2,
            base + 7 * cs + 11,
            base + 7 * cs + 12,
        )
    } else {
        Seq::<u32>::empty()
    };
    if z < cs - 1 {
        if z % 2 == 0 {
            proof {
                lemma_tiles_at(*cfg, *grid, cxi, czi, x as int, z as int, 1);
                lemma_tiles_at(*cfg, *grid, cxi, czi, x as int, z as int + 1, 4);
                lemma_tiles_at(*cfg, *grid, cxi, czi, x as int, z as int + 1, 5);
                assert(base + 7 * cs + 4 == 7 * ((z + 1) * cs + x) + 4) by (nonlinear_arith)
                    requires
                        base == 7 * (z * cs + x),
                ;
            }
            create_quad(mesh, b + 1, b + 2, b + 7 * (cs as u32) + 4, b + 7 * (cs as u32) + 5);
        } else if x < cs - 1 {
            proof {
                lemma_tiles_at(*cfg, *grid, cxi, czi, x as int, z as int, 1);
                lemma_tiles_at(*cfg, *grid, cxi, czi, x as int + 1, z as int + 1, 4);
                lemma_tiles_at(*cfg, *grid, cxi, czi, x as int + 1, z as int + 1, 5);
                assert(base + 7 * cs + 11 == 7 * ((z + 1) * cs + (x + 1)) + 4) by (nonlinear_arith)
                    requires
                        base == 7 * (z * cs + x),
                ;
            }
            create_quad(mesh, b + 1, b + 2, b + 7 * (cs as u32) + 11, b + 7 * (cs as u32) + 12);
        }
    }
    proof {
        assert(mesh@.indices =~= idx0 + piece1 + piece2);
    }
    let ghost piece3 = if x > 0 && z % 2 == 0 {
        wall6(
            h,
            tile_h(*cfg, *grid, cxi, czi, x - 1, z + 1),
            base + 6,
            base + 1,
            base + 7 * cs - 4,
            base + 7 * cs - 3,
        )
    } else {
        Seq::<u32>::empty()
    };
    if x > 0 && z % 2 == 0 {
        proof {
            assert(z < cs - 1) by {
                assert(cs % 2 == 0 && z % 2 == 0 && z < cs);
            }
            lemma_tiles_at(*cfg, *grid, cxi, czi, x as int, z as int, 6);
            lemma_tiles_at(*cfg, *grid, cxi, czi, x as int - 1, z as int + 1, 3);
            lemma_tiles_at(*cfg, *grid, cxi, czi, x as int - 1, z as int + 1, 4);
            assert(base + 7 * cs - 4 == 7 * ((z + 1) * cs + (x - 1)) + 3) by (nonlinear_arith)
                requires
                    base == 7 * (z * cs + x),
            ;
        }
        create_quad(mesh, b + 6, b + 1, b + 7 * (cs as u32) - 4, b + 7 * (cs as u32) - 3);
    }
    proof {
        assert(mesh@.indices =~= idx0 + piece1 + piece2 + piece3);
    }
    let ghost piece4 = if z % 2 == 1 && z < cfg.chunk_size - 1 {
        wall6(
            h,
            tile_h(*cfg, *grid, cxi, czi, x as int, z + 1),
            base + 6,
            base + 1,
            base + 7 * cs + 3,
            base + 7 * cs + 4,
        )
    } else {
        Seq::<u32>::empty()
    };
    if z % 2 == 1 && z < cs - 1 {
        proof {
            lemma_tiles_at(*cfg, *grid, cxi, czi, x as int, z as int, 6);
            lemma_tiles_at(*cfg, *grid, cxi, czi, x as int, z as int + 1, 3);
            lemma_tiles_at(*cfg, *grid, cxi, czi, x as int, z as int + 1, 4);
            assert(base + 7 * cs + 3 == 7 * ((z + 1) * cs + x) + 3) by (nonlinear_arith)
                requires
                    base == 7 * (z * cs + x),
            ;
        }
        create_quad(mesh, b + 6, b + 1, b + 7 * (cs as u32) + 3, b + 7 * (cs as u32) + 4);
    }
    proof {
        assert(mesh@.indices =~= idx0 + piece1 + piece2 + piece3 + piece4);
        assert(mesh@.indices =~= idx0 + tile_walls(
            *cfg,
            *grid,
            cxi,
            czi,
            x as int,
            z as int,
        ));
    }
}

/// Stitch the east and south chunk seams, where a neighbor chunk exists.
///
/// Heights across the seam are re-sampled from the shared global grid, so
/// the vertices emitted here coincide exactly with the ones the neighbor
/// chunk computes for the same global cells.
#[verifier::rlimit(100)]
fn add_chunk_sides(
    cfg: &TerrainParams,
    grid: &HeightGrid,
    c_x: usize,
    c_z: usize,
    mesh: &mut MeshData,
)
    requires
        cfg.valid(),
        grid_covers(*cfg, *grid),
        c_x < cfg.map_size,
        c_z < cfg.map_size,
        old(mesh).wf(),
        old(mesh)@.positions == chunk_tiles_positions(*cfg, *grid, c_x as int, c_z as int),
    ensures
        final(mesh).wf(),
        final(mesh)@.positions == old(mesh)@.positions
            + chunk_east(*cfg, *grid, c_x as int, c_z as int).positions
            + chunk_south(*cfg, *grid, c_x as int, c_z as int).positions,
        final(mesh)@.uvs == old(mesh)@.uvs
            + chunk_east(*cfg, *grid, c_x as int, c_z as int).uvs
            + chunk_south(*cfg, *grid, c_x as int, c_z as int).uvs,
        final(mesh)@.normals == old(mesh)@.normals
            + chunk_east(*cfg, *grid, c_x as int, c_z as int).normals
            + chunk_south(*cfg, *grid, c_x as int, c_z as int).normals,
        final(mesh)@.indices == old(mesh)@.indices
            + chunk_east(*cfg, *grid, c_x as int, c_z as int).indices
            + chunk_south(*cfg, *grid, c_x as int, c_z as int).indices,
{
    let ghost cxi = c_x as int;
    let ghost czi = c_z as int;
    let cs = cfg.chunk_size;
    let ghost csi = cfg.chunk_size as int;
    let ghost b0 = 7 * csi * csi;
    proof {
        lemma_cfg_sizes(*cfg);
        assert(c_x * cs + cs <= cfg.map_size * cfg.chunk_size
            && c_z * cs + cs <= cfg.map_size * cfg.chunk_size
            && cs * cs <= 4096 * 4096) by (nonlinear_arith)
            requires
                c_x < cfg.map_size,
                c_z < cfg.map_size,
                cs == cfg.chunk_size,
                cs <= 4096,
                cfg.map_size * cfg.chunk_size <= 4096,
        ;
        assert(old(mesh)@.positions.len() == 7 * csi * csi);
    }
    let gx0 = c_x * cs;
    let gz0 = c_z * cs;
    if c_x + 1 < cfg.map_size {
        let mut z: usize = 0;
        while z < cs
            invariant
                cfg.valid(),
                grid_covers(*cfg, *grid),
                c_x < cfg.map_size,
                c_z < cfg.map_size,
                c_x as int == cxi,
                c_z as int == czi,
                cs == cfg.chunk_size,
                csi == cs as int,
                b0 == 7 * csi * csi,
                cs <= 4096,
                gx0 == c_x * cs,
                gz0 == c_z * cs,
                gx0 + cs <= cfg.map_cells(),
                gz0 + cs <= cfg.map_cells(),
                cxi < cfg.map_size - 1,
                z <= cs,
                mesh.wf(),
                old(mesh)@.positions == chunk_tiles_positions(*cfg, *grid, cxi, czi),
                old(mesh)@.positions.len() == 7 * csi * csi,
                mesh@.positions == old(mesh)@.positions
                    + east_upto(*cfg, *grid, cxi, czi, z as int, b0).positions,
                mesh@.uvs == old(mesh)@.uvs + east_upto(*cfg, *grid, cxi, czi, z as int, b0).uvs,
                mesh@.normals == old(mesh)@.normals
                    + east_upto(*cfg, *grid, cxi, czi, z as int, b0).normals,
                mesh@.indices == old(mesh)@.indices
                    + east_upto(*cfg, *grid, cxi, czi, z as int, b0).indices,
                mesh@.positions.len() <= 7 * csi * csi + 6 * z,
            decreases cs - z,
        {
            let ghost prevmv = east_upto(*cfg, *grid, cxi, czi, z as int, b0);
            let ghost b = b0 + prevmv.positions.len();
            let ghost stepmv = east_step(*cfg, *grid, cxi, czi, z as int, b);
            proof {
                assert(z * cs + (cs - 1) < cs * cs && cs * cs <= 4096 * 4096)
                    by (nonlinear_arith)
                    requires
                        z < cs,
                        2 <= cs,
                        cs <= 4096,
                ;
                assert(7 * (csi * csi) == 7 * csi * csi) by (nonlinear_arith);
                assert(7 * csi * csi + 6 * csi < 0x2000_0000) by (nonlinear_arith)
                    requires
                        0 <= csi <= 4096,
                ;
            }
            let tbase: usize = 7 * (z * cs + (cs - 1));
            let tb: u32 = tbase as u32;
            let b32: u32 = mesh.positions.len() as u32;
            let h_e = grid.get(gx0 + cs, gz0 + z);
            push_stitch_vertex(mesh, cs - 1, z, 2, h_e);
            push_stitch_vertex(mesh, cs - 1, z, 1, h_e);
            proof {
                lemma_tiles_at(*cfg, *grid, cxi, czi, csi - 1, z as int, 2);
                lemma_tiles_at(*cfg, *grid, cxi, czi, csi - 1, z as int, 3);
                lemma_tiles_at(*cfg, *grid, cxi, czi, csi - 1, z as int, 4);
                lemma_tiles_at(*cfg, *grid, cxi, czi, csi - 1, z as int, 1);
            }
            create_quad(mesh, tb + 2, tb + 3, b32, b32 + 1);
            if z % 2 == 1 {
                if z > 0 {
                    let h_ne = grid.get(gx0 + cs, gz0 + z - 1);
                    let idx2: u32 = mesh.positions.len() as u32;
                    push_stitch_vertex(mesh, cs - 1, z, 2, h_ne);
                    push_stitch_vertex(mesh, cs - 1, z, 3, h_ne);
                    create_quad(mesh, tb + 3, tb + 4, idx2 + 1, idx2);
                }
                if z < cs - 1 {
                    let h_se = grid.get(gx0 + cs, gz0 + z + 1);
                    let idx3: u32 = mesh.positions.len() as u32;
                    push_stitch_vertex(mesh, cs - 1, z, 0, h_se);
                    push_stitch_vertex(mesh, cs - 1, z, 1, h_se);
                    create_quad(mesh, tb + 1, tb + 2, idx3 + 1, idx3);
                }
            }
            z = z + 1;
            proof {
                assert(east_upto(*cfg, *grid, cxi, czi, z as int, b0) == mv_app(prevmv, stepmv));
                assert(mesh@.positions =~= old(mesh)@.positions + mv_app(prevmv, stepmv).positions);
                assert(mesh@.uvs =~= old(mesh)@.uvs + mv_app(prevmv, stepmv).uvs);
                assert(mesh@.normals =~= old(mesh)@.normals + mv_app(prevmv, stepmv).normals);
                assert(mesh@.indices =~= old(mesh)@.indices + mv_app(prevmv, stepmv).indices);
            }
        }
    }
    proof {
        assert(mesh@.positions =~= old(mesh)@.positions + chunk_east(
            *cfg,
            *grid,
            cxi,
            czi,
        ).positions);
        assert(mesh@.uvs =~= old(mesh)@.uvs + chunk_east(*cfg, *grid, cxi, czi).uvs);
        assert(mesh@.normals =~= old(mesh)@.normals + chunk_east(*cfg, *grid, cxi, czi).normals);
        assert(mesh@.indices =~= old(mesh)@.indices + chunk_east(*cfg, *grid, cxi, czi).indices);
    }
    let ghost eastmv = chunk_east(*cfg, *grid, cxi, czi);
    let ghost bs = 7 * csi * csi + eastmv.positions.len();
    if c_z + 1 < cfg.map_size {
        let mut x: usize = 0;
        while x < cs
            invariant
                cfg.valid(),
                grid_covers(*cfg, *grid),
                c_x < cfg.map_size,
                c_z < cfg.map_size,
                c_x as int == cxi,
                c_z as int == czi,
                cs == cfg.chunk_size,
                csi == cs as int,
                cs <= 4096,
                gx0 == c_x * cs,
                gz0 == c_z * cs,
                gx0 + cs <= cfg.map_cells(),
                gz0 + cs <= cfg.map_cells(),
                czi < cfg.map_size - 1,
                x <= cs,
                mesh.wf(),
                old(mesh)@.positions == chunk_tiles_positions(*cfg, *grid, cxi, czi),
                old(mesh)@.positions.len() == 7 * csi * csi,
                eastmv == chunk_east(*cfg, *grid, cxi, czi),
                bs == 7 * csi * csi + eastmv.positions.len(),
                eastmv.positions.len() <= 6 * csi,
                mesh@.positions == old(mesh)@.positions + eastmv.positions
                    + south_upto(*cfg, *grid, cxi, czi, x as int, bs).positions,
                mesh@.uvs == old(mesh)@.uvs + eastmv.uvs
                    + south_upto(*cfg, *grid, cxi, czi, x as int, bs).uvs,
                mesh@.normals == old(mesh)@.normals + eastmv.normals
                    + south_upto(*cfg, *grid, cxi, czi, x as int, bs).normals,
                mesh@.indices == old(mesh)@.indices + eastmv.indices
                    + south_upto(*cfg, *grid, cxi, czi, x as int, bs).indices,
                mesh@.positions.len() <= 7 * csi * csi + 6 * csi + 4 * x,
            decreases cs - x,
        {
            let ghost prevmv = south_upto(*cfg, *grid, cxi, czi, x as int, bs);
            let ghost b = bs + prevmv.positions.len();
            let ghost stepmv = south_step(*cfg, *grid, cxi, czi, x as int, b);
            proof {
                assert((cs - 1) * cs + x < cs * cs && cs * cs <= 4096 * 4096)
                    by (nonlinear_arith)
                    requires
                        x < cs,
                        2 <= cs,
                        cs <= 4096,
                ;
                assert(7 * csi * csi + 6 * csi + 4 * csi < 0x2000_0000) by (nonlinear_arith)
                    requires
                        0 <= csi <= 4096,
                ;
            }
            let tbase: usize = 7 * ((cs - 1) * cs + x);
            let tb: u32 = tbase as u32;
            let b32: u32 = mesh.positions.len() as u32;
            let h_s = grid.get(gx0 + x, gz0 + cs);
            push_stitch_vertex(mesh, x, cs - 1, 0, h_s);
            push_stitch_vertex(mesh, x, cs - 1, 5, h_s);
            proof {
                lemma_tiles_at(*cfg, *grid, cxi, czi, x as int, csi - 1, 6);
                lemma_tiles_at(*cfg, *grid, cxi, czi, x as int, csi - 1, 1);
                lemma_tiles_at(*cfg, *grid, cxi, czi, x as int, csi - 1, 2);
            }
            create_quad(mesh, tb + 6, tb + 1, b32, b32 + 1);
            let h_sd = grid.get(gx0 + x + 1, gz0 + cs);
            push_stitch_vertex(mesh, x, cs - 1, 0, h_sd);
            push_stitch_vertex(mesh, x, cs - 1, 1, h_sd);
            create_quad(mesh, tb + 1, tb + 2, b32 + 3, b32 + 2);
            x = x + 1;
            proof {
                assert(south_upto(*cfg, *grid, cxi, czi, x as int, bs) == mv_app(prevmv, stepmv));
                assert(mesh@.positions =~= old(mesh)@.positions + eastmv.positions + mv_app(
                    prevmv,
                    stepmv,
                ).positions);
                assert(mesh@.uvs =~= old(mesh)@.uvs + eastmv.uvs + mv_app(prevmv, stepmv).uvs);
                assert(mesh@.normals =~= old(mesh)@.normals + eastmv.normals + mv_app(
                    prevmv,
                    stepmv,
                ).normals);
                assert(mesh@.indices =~= old(mesh)@.indices + eastmv.indices + mv_app(
                    prevmv,
                    stepmv,
                ).indices);
            }
        }
    }
    proof {
        assert(mesh@.positions =~= old(mesh)@.positions + chunk_east(*cfg, *grid, cxi, czi).positions
            + chunk_south(*cfg, *grid, cxi, czi).positions);
        assert(mesh@.uvs =~= old(mesh)@.uvs + chunk_east(*cfg, *grid, cxi, czi).uvs + chunk_south(
            *cfg,
            *grid,
            cxi,
            czi,
        ).uvs);
        assert(mesh@.normals =~= old(mesh)@.normals + chunk_east(*cfg, *grid, cxi, czi).normals
            + chunk_south(*cfg, *grid, cxi, czi).normals);
        assert(mesh@.indices =~= old(mesh)@.indices + chunk_east(*cfg, *grid, cxi, czi).indices
            + chunk_south(*cfg, *grid, cxi, czi).indices);
    }
}

/// Build one chunk: all tile fans, the intra-chunk walls, then the east
/// and south seams.
pub fn create_chunk(cfg: &TerrainParams, c_x: usize, c_z: usize, grid: &HeightGrid) -> (m: MeshData)
    requires
        cfg.valid(),
        c_x < cfg.map_size,
        c_z < cfg.map_size,
        grid_covers(*cfg, *grid),
    ensures
        m.wf(),
        mesh_matches(m@, chunk_view(*cfg, *grid, c_x as int, c_z as int)),
{
    let ghost cxi = c_x as int;
    let ghost czi = c_z as int;
    let cs = cfg.chunk_size;
    let ghost csi = cfg.chunk_size as int;
    proof {
        lemma_cfg_sizes(*cfg);
        assert(c_x * cs + cs <= cfg.map_size * cfg.chunk_size
            && c_z * cs + cs <= cfg.map_size * cfg.chunk_size
            && cs * cs <= 4096 * 4096) by (nonlinear_arith)
            requires
                c_x < cfg.map_size,
                c_z < cfg.map_size,
                cs == cfg.chunk_size,
                cs <= 4096,
                cfg.map_size * cfg.chunk_size <= 4096,
        ;
    }
    let gx0 = c_x * cs;
    let gz0 = c_z * cs;
    let mut m = MeshData::new();
    let ghost ps = chunk_tiles_positions(*cfg, *grid, cxi, czi);
    let ghost us = chunk_tiles_uvs(*cfg, *grid, cxi, czi);
    let ghost ns = chunk_tiles_normals(*cfg, *grid, cxi, czi);
    let ghost is = chunk_tiles_indices(csi);
    proof {
        assert(m@.positions =~= ps.take(0));
        assert(m@.uvs =~= us.take(0));
        assert(m@.normals =~= ns.take(0));
        assert(m@.indices =~= is.take(0));
    }
    let mut z: usize = 0;
    while z < cs
        invariant
            cfg.valid(),
            grid_covers(*cfg, *grid),
            c_x < cfg.map_size,
            c_z < cfg.map_size,
            c_x as int == cxi,
            c_z as int == czi,
            cs == cfg.chunk_size,
            csi == cs as int,
            cs <= 4096,
            gx0 == c_x * cs,
            gz0 == c_z * cs,
            gx0 + cs <= cfg.map_cells(),
            gz0 + cs <= cfg.map_cells(),
            z <= cs,
            m.wf(),
            ps == chunk_tiles_positions(*cfg, *grid, cxi, czi),
            us == chunk_tiles_uvs(*cfg, *grid, cxi, czi),
            ns == chunk_tiles_normals(*cfg, *grid, cxi, czi),
            is == chunk_tiles_indices(csi),
            m@.positions == ps.take(7 * (z as int * csi)),
            m@.uvs == us.take(7 * (z as int * csi)),
            m@.normals == ns.take(7 * (z as int * csi)),
            m@.indices == is.take(18 * (z as int * csi)),
        decreases cs - z,
    {
        let mut x: usize = 0;
        while x < cs
            invariant
                cfg.valid(),
                grid_covers(*cfg, *grid),
                c_x < cfg.map_size,
                c_z < cfg.map_size,
                c_x as int == cxi,
                c_z as int == czi,
                cs == cfg.chunk_size,
                csi == cs as int,
                cs <= 4096,
                gx0 == c_x * cs,
                gz0 == c_z * cs,
                gx0 + cs <= cfg.map_cells(),
                gz0 + cs <= cfg.map_cells(),
                z < cs,
                x <= cs,
                m.wf(),
                ps == chunk_tiles_positions(*cfg, *grid, cxi, czi),
                us == chunk_tiles_uvs(*cfg, *grid, cxi, czi),
                ns == chunk_tiles_normals(*cfg, *grid, cxi, czi),
                is == chunk_tiles_indices(csi),
                m@.positions == ps.take(7 * (z as int * csi + x as int)),
                m@.uvs == us.take(7 * (z as int * csi + x as int)),
                m@.normals == ns.take(7 * (z as int * csi + x as int)),
                m@.indices == is.take(18 * (z as int * csi + x as int)),
            decreases cs - x,
        {
            let ghost k = z as int * csi + x as int;
            proof {
                lemma_cell_index(csi, x as int, z as int);
                assert(7 * (k + 1) <= 7 * csi * csi && 18 * (k + 1) <= 18 * csi * csi
                    && 7 * csi * csi <= 7 * 4096 * 4096) by (nonlinear_arith)
                    requires
                        0 <= k < csi * csi,
                        0 <= csi <= 4096,
                ;
            }
            let h = grid.get(gx0 + x, gz0 + z);
            let pos = to_hex_pos(x, z, h);
            proof {
                assert(pos == tile_center(*cfg, *grid, cxi, czi, x as int, z as int));
                lemma_tiles_prefix_step(*cfg, *grid, cxi, czi, x as int, z as int);
            }
            create_tile(&mut m, pos);
            x = x + 1;
            proof {
                assert(m@.positions == ps.take(7 * (z as int * csi + x as int)));
                assert(m@.uvs == us.take(7 * (z as int * csi + x as int)));
                assert(m@.normals == ns.take(7 * (z as int * csi + x as int)));
                assert(m@.indices == is.take(18 * (z as int * csi + x as int)));
            }
        }
        z = z + 1;
        proof {
            assert(z as int * csi == (z as int - 1) * csi + csi) by (nonlinear_arith);
        }
    }
    proof {
        assert(7 * (csi * csi) == 7 * csi * csi && 18 * (csi * csi) == 18 * csi * csi)
            by (nonlinear_arith);
        assert(m@.positions =~= ps);
        assert(m@.uvs =~= us);
        assert(m@.normals =~= ns);
        assert(m@.indices =~= is + walls_upto(*cfg, *grid, cxi, czi, 0));
    }
    let mut z: usize = 0;
    while z < cs
        invariant
            cfg.valid(),
            grid_covers(*cfg, *grid),
            c_x < cfg.map_size,
            c_z < cfg.map_size,
            c_x as int == cxi,
            c_z as int == czi,
            cs == cfg.chunk_size,
            csi == cs as int,
            z <= cs,
            m.wf(),
            ps == chunk_tiles_positions(*cfg, *grid, cxi, czi),
            us == chunk_tiles_uvs(*cfg, *grid, cxi, czi),
            ns == chunk_tiles_normals(*cfg, *grid, cxi, czi),
            is == chunk_tiles_indices(csi),
            m@.positions == ps,
            m@.uvs == us,
            m@.normals == ns,
            m@.indices == is + walls_upto(*cfg, *grid, cxi, czi, z as int * csi),
        decreases cs - z,
    {
        let mut x: usize = 0;
        while x < cs
            invariant
                cfg.valid(),
                grid_covers(*cfg, *grid),
                c_x < cfg.map_size,
                c_z < cfg.map_size,
                c_x as int == cxi,
                c_z as int == czi,
                cs == cfg.chunk_size,
                csi == cs as int,
                z < cs,
                x <= cs,
                m.wf(),
                ps == chunk_tiles_positions(*cfg, *grid, cxi, czi),
                us == chunk_tiles_uvs(*cfg, *grid, cxi, czi),
                ns == chunk_tiles_normals(*cfg, *grid, cxi, czi),
                is == chunk_tiles_indices(csi),
                m@.positions == ps,
                m@.uvs == us,
                m@.normals == ns,
                m@.indices == is + walls_upto(*cfg, *grid, cxi, czi, z as int * csi + x as int),
            decreases cs - x,
        {
            let ghost k = z as int * csi + x as int;
            add_tile_sides(cfg, grid, c_x, c_z, x, z, &mut m);
            x = x + 1;
            proof {
                lemma_cell_index(csi, x as int - 1, z as int);
                assert(walls_upto(*cfg, *grid, cxi, czi, k + 1) == walls_upto(
                    *cfg,
                    *grid,
                    cxi,
                    czi,
                    k,
                ) + tile_walls(*cfg, *grid, cxi, czi, k % csi, k / csi));
                assert(m@.indices =~= is + walls_upto(*cfg, *grid, cxi, czi, k + 1));
            }
        }
        z = z + 1;
        proof {
            assert(z as int * csi == (z as int - 1) * csi + csi) by (nonlinear_arith);
        }
    }
    add_chunk_sides(cfg, grid, c_x, c_z, &mut m);
    proof {
        assert(csi * csi == csi * csi + 0);
        assert(m@.positions =~= chunk_view(*cfg, *grid, cxi, czi).positions);
        assert(m@.uvs =~= chunk_view(*cfg, *grid, cxi, czi).uvs);
        assert(m@.normals =~= chunk_view(*cfg, *grid, cxi, czi).normals);
        assert(m@.indices =~= chunk_view(*cfg, *grid, cxi, czi).indices);
    }
    m
}


} // verus!
