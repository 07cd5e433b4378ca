//! Mesh buffers and the per-cell geometry emitters.
//!
//! A `MeshData` holds the four flat buffers a renderer consumes: lattice
//! positions, lattice UVs (the horizontal projection of each vertex),
//! unnormalized normal directions, and triangle indices.  `create_tile`
//! appends one hexagonal cell — its center, six corners and six fan
//! triangles — and `create_quad` appends a vertical side wall between two
//! columns of vertices exactly when their elevations differ.

use vstd::prelude::*;
use crate::hex::{corner_dx, corner_dz, corner_offset, LATTICE_LIMIT};

verus! {

/// A lattice position or direction: `x` in inner-radius units, `z` in
/// half-outer-radius units, `y` a fixed-point elevation.
#[derive(Clone, Copy, PartialEq, Eq, Structural, Debug)]
pub struct Point3 {
    pub x: i64,
    pub y: i64,
    pub z: i64,
}

/// A lattice texture coordinate: the horizontal projection of a vertex.
#[derive(Clone, Copy, PartialEq, Eq, Structural, Debug)]
pub struct Uv {
    pub u: i64,
    pub v: i64,
}

/// The four flat buffers of one mesh.
pub struct MeshData {
    pub positions: Vec<Point3>,
    pub uvs: Vec<Uv>,
    pub normals: Vec<Point3>,
    pub indices: Vec<u32>,
}

/// The mathematical content of a mesh: one sequence per buffer.
pub ghost struct MeshView {
    pub positions: Seq<Point3>,
    pub uvs: Seq<Uv>,
    pub normals: Seq<Point3>,
    pub indices: Seq<u32>,
}

impl View for MeshData {
    type V = MeshView;

    open spec fn view(&self) -> MeshView {
        MeshView {
            positions: self.positions@,
            uvs: self.uvs@,
            normals: self.normals@,
            indices: self.indices@,
        }
    }
}

/// The empty mesh view.
pub open spec fn mv_empty() -> MeshView {
    MeshView {
        positions: Seq::empty(),
        uvs: Seq::empty(),
        normals: Seq::empty(),
        indices: Seq::empty(),
    }
}

/// Bufferwise concatenation of two mesh views.
pub open spec fn mv_app(a: MeshView, b: MeshView) -> MeshView {
    MeshView {
        positions: a.positions + b.positions,
        uvs: a.uvs + b.uvs,
        normals: a.normals + b.normals,
        indices: a.indices + b.indices,
    }
}

impl MeshData {
    /// Buffers are consistent: one UV and one normal per position, and
    /// every index refers to an existing vertex.
    pub open spec fn wf(self) -> bool {
        &&& self.uvs@.len() == self.positions@.len()
        &&& self.normals@.len() == self.positions@.len()
        &&& forall|i: int|
            0 <= i < self.indices@.len()
                ==> (#[trigger] self.indices@[i] as int) < self.positions@.len()
    }

    /// A fresh, empty mesh.
    pub fn new() -> (m: MeshData)
        ensures
            m.wf(),
            m@ == mv_empty(),
    {
        let m = MeshData {
            positions: Vec::new(),
            uvs: Vec::new(),
            normals: Vec::new(),
            indices: Vec::new(),
        };
        proof {
            assert(m@.positions =~= mv_empty().positions);
            assert(m@.uvs =~= mv_empty().uvs);
            assert(m@.normals =~= mv_empty().normals);
            assert(m@.indices =~= mv_empty().indices);
        }
        m
    }
}

/// Vertex `j` of a tile block: the center for `j == 0`, corner `j - 1`
/// otherwise — lattice `x` offset.
pub open spec fn vtx_dx(j: int) -> int {
    if j == 0 {
        0
    } else {
        corner_dx(j - 1)
    }
}

/// Vertex `j` of a tile block — lattice `z` offset.
pub open spec fn vtx_dz(j: int) -> int {
    if j == 0 {
        0
    } else {
        corner_dz(j - 1)
    }
}

/// Vertex `j` of the tile centered at `c`: all seven vertices share the
/// center's elevation.
pub open spec fn tile_vertex(c: Point3, j: int) -> Point3 {
    Point3 { x: (c.x + vtx_dx(j)) as i64, y: c.y, z: (c.z + vtx_dz(j)) as i64 }
}

/// UV of vertex `j`: the vertex's horizontal projection.
pub open spec fn tile_uv(c: Point3, j: int) -> Uv {
    Uv { u: (c.x + vtx_dx(j)) as i64, v: (c.z + vtx_dz(j)) as i64 }
}

/// Normal direction of vertex `j`: straight up at the center, and the
/// unnormalized direction from the flattened center to the vertex at the
/// corners (a renderer normalizes after scaling to world units).
pub open spec fn tile_normal(c: Point3, j: int) -> Point3 {
    if j == 0 {
        Point3 { x: 0, y: 1, z: 0 }
    } else {
        Point3 { x: corner_dx(j - 1) as i64, y: c.y, z: corner_dz(j - 1) as i64 }
    }
}

/// Index `k` of a tile's fan: triangle `k / 3` joins the center, corner
/// `k / 3`, and the next corner around.
pub open spec fn fan_index(base: int, k: int) -> int {
    let t = k / 3;
    if k % 3 == 0 {
        base
    } else if k % 3 == 1 {
        base + 1 + t
    } else {
        base + 1 + (t + 1) % 6
    }
}

/// Everything one tile appends to a mesh whose vertex count is `base`:
/// seven vertices and eighteen fan indices.
pub open spec fn tile_mv(c: Point3, base: int) -> MeshView {
    MeshView {
        positions: Seq::new(7, |j: int| tile_vertex(c, j)),
        uvs: Seq::new(7, |j: int| tile_uv(c, j)),
        normals: Seq::new(7, |j: int| tile_normal(c, j)),
        indices: Seq::new(18, |k: int| fan_index(base, k) as u32),
    }
}

/// Every fan index stays inside its own tile's seven-vertex block.
pub proof fn lemma_fan_index_local(base: int, k: int)
    requires
        0 <= base,
        0 <= k < 18,
    ensures
        base <= fan_index(base, k) < base + 7,
{
    assert(0 <= k / 3 < 6);
    assert(0 <= (k / 3 + 1) % 6 < 6);
}

/// Append one vertex (position, UV, normal) to a mesh.
pub fn push_vertex(m: &mut MeshData, p: Point3, t: Uv, n: Point3)
    requires
        old(m).wf(),
    ensures
        final(m).wf(),
        final(m)@.positions == old(m)@.positions.push(p),
        final(m)@.uvs == old(m)@.uvs.push(t),
        final(m)@.normals == old(m)@.normals.push(n),
        final(m)@.indices == old(m)@.indices,
{
    m.positions.push(p);
    m.uvs.push(t);
    m.normals.push(n);
}

/// Append one triangle's indices to a mesh.
pub fn push_tri(m: &mut MeshData, a: u32, b: u32, c: u32)
    requires
        old(m).wf(),
        (a as int) < old(m)@.positions.len(),
        (b as int) < old(m)@.positions.len(),
        (c as int) < old(m)@.positions.len(),
    ensures
        final(m).wf(),
        final(m)@.positions == old(m)@.positions,
        final(m)@.uvs == old(m)@.uvs,
        final(m)@.normals == old(m)@.normals,
        final(m)@.indices == old(m)@.indices.push(a).push(b).push(c),
{
    m.indices.push(a);
    m.indices.push(b);
    m.indices.push(c);
}

/// Append one hexagonal cell: center vertex, six corner vertices, and six
/// triangles fanning out from the center.
pub fn create_tile(mesh: &mut MeshData, pos: Point3)
    requires
        old(mesh).wf(),
        -LATTICE_LIMIT <= pos.x <= LATTICE_LIMIT,
        -LATTICE_LIMIT <= pos.z <= LATTICE_LIMIT,
        old(mesh)@.positions.len() + 7 <= 0x4000_0000,
    ensures
        final(mesh).wf(),
        final(mesh)@ == mv_app(old(mesh)@, tile_mv(pos, old(mesh)@.positions.len() as int)),
{
    let idx: u32 = mesh.positions.len() as u32;
    push_vertex(mesh, pos, Uv { u: pos.x, v: pos.z }, Point3 { x: 0, y: 1, z: 0 });
    let mut i: usize = 0;
    while i < 6
        invariant
            mesh.wf(),
            i <= 6,
            idx == old(mesh)@.positions.len(),
            -LATTICE_LIMIT <= pos.x <= LATTICE_LIMIT,
            -LATTICE_LIMIT <= pos.z <= LATTICE_LIMIT,
            old(mesh)@.positions.len() + 7 <= 0x4000_0000,
            mesh@.positions == old(mesh)@.positions + Seq::new(
                (i + 1) as nat,
                |j: int| tile_vertex(pos, j),
            ),
            mesh@.uvs == old(mesh)@.uvs + Seq::new((i + 1) as nat, |j: int| tile_uv(pos, j)),
            mesh@.normals == old(mesh)@.normals + Seq::new(
                (i + 1) as nat,
                |j: int| tile_normal(pos, j),
            ),
            mesh@.indices == old(mesh)@.indices,
        decreases 6 - i,
    {
        let (dx, dz) = corner_offset(i);
        let p = Point3 { x: pos.x + dx, y: pos.y, z: pos.z + dz };
        push_vertex(mesh, p, Uv { u: p.x, v: p.z }, Point3 { x: dx, y: pos.y, z: dz });
        i = i + 1;
        proof {
            assert(mesh@.positions =~= old(mesh)@.positions + Seq::new(
                (i + 1) as nat,
                |j: int| tile_vertex(pos, j),
            ));
            assert(mesh@.uvs =~= old(mesh)@.uvs + Seq::new(
                (i + 1) as nat,
                |j: int| tile_uv(pos, j),
            ));
            assert(mesh@.normals =~= old(mesh)@.normals + Seq::new(
                (i + 1) as nat,
                |j: int| tile_normal(pos, j),
            ));
        }
    }
    let mut t: usize = 0;
    while t < 6
        invariant
            mesh.wf(),
            t <= 6,
            idx == old(mesh)@.positions.len(),
            mesh@.positions == old(mesh)@.positions + Seq::new(7, |j: int| tile_vertex(pos, j)),
            mesh@.uvs == old(mesh)@.uvs + Seq::new(7, |j: int| tile_uv(pos, j)),
            mesh@.normals == old(mesh)@.normals + Seq::new(7, |j: int| tile_normal(pos, j)),
            old(mesh)@.positions.len() + 7 <= 0x4000_0000,
            mesh@.indices == old(mesh)@.indices + Seq::new(
                (3 * t) as nat,
                |k: int| fan_index(idx as int, k) as u32,
            ),
        decreases 6 - t,
    {
        let a: u32 = idx;
        let b: u32 = idx + 1 + (t as u32);
        let c: u32 = idx + 1 + (((t as u32) + 1) % 6);
        push_tri(mesh, a, b, c);
        t = t + 1;
        proof {
            assert(mesh@.indices =~= old(mesh)@.indices + Seq::new(
                (3 * t) as nat,
                |k: int| fan_index(idx as int, k) as u32,
            ));
        }
    }
    proof {
        assert(mesh@.positions =~= mv_app(
            old(mesh)@,
            tile_mv(pos, old(mesh)@.positions.len() as int),
        ).positions);
        assert(mesh@.uvs =~= mv_app(
            old(mesh)@,
            tile_mv(pos, old(mesh)@.positions.len() as int),
        ).uvs);
        assert(mesh@.normals =~= mv_app(
            old(mesh)@,
            tile_mv(pos, old(mesh)@.positions.len() as int),
        ).normals);
        assert(mesh@.indices =~= mv_app(
            old(mesh)@,
            tile_mv(pos, old(mesh)@.positions.len() as int),
        ).indices);
    }
}

/// The indices a side wall contributes: empty when the two vertex columns
/// share one elevation, two triangles otherwise.
pub open spec fn wall_view(ps: Seq<Point3>, v1: int, v2: int, v3: int, v4: int) -> Seq<u32> {
    if ps[v1].y == ps[v3].y {
        Seq::empty()
    } else {
        seq![v1 as u32, v3 as u32, v2 as u32, v1 as u32, v4 as u32, v3 as u32]
    }
}

/// A wall is suppressed exactly between equal elevations: the flat case
/// emits nothing, the uneven case a full quad.
pub proof fn lemma_wall_iff_uneven(ps: Seq<Point3>, v1: int, v2: int, v3: int, v4: int)
    ensures
        wall_view(ps, v1, v2, v3, v4).len() == 0 <==> ps[v1].y == ps[v3].y,
        ps[v1].y != ps[v3].y ==> wall_view(ps, v1, v2, v3, v4).len() == 6,
{
}

/// Append a side wall between vertices `v1`/`v2` of one cell and the
/// facing vertices `v3`/`v4` of its neighbor, unless the two cells sit at
/// one elevation.
pub fn create_quad(mesh: &mut MeshData, v1: u32, v2: u32, v3: u32, v4: u32)
    requires
        old(mesh).wf(),
        (v1 as int) < old(mesh)@.positions.len(),
        (v2 as int) < old(mesh)@.positions.len(),
        (v3 as int) < old(mesh)@.positions.len(),
        (v4 as int) < old(mesh)@.positions.len(),
    ensures
        final(mesh).wf(),
        final(mesh)@.positions == old(mesh)@.positions,
        final(mesh)@.uvs == old(mesh)@.uvs,
        final(mesh)@.normals == old(mesh)@.normals,
        final(mesh)@.indices == old(mesh)@.indices + wall_view(
            old(mesh)@.positions,
            v1 as int,
            v2 as int,
            v3 as int,
            v4 as int,
        ),
{
    let y1 = mesh.positions[v1 as usize].y;
    let y3 = mesh.positions[v3 as usize].y;
    if y1 == y3 {
        proof {
            assert(mesh@.indices =~= old(mesh)@.indices + wall_view(
                old(mesh)@.positions,
                v1 as int,
                v2 as int,
                v3 as int,
                v4 as int,
            ));
        }
        return;
    }
    push_tri(mesh, v1, v3, v2);
    push_tri(mesh, v1, v4, v3);
    proof {
        assert(mesh@.indices =~= old(mesh)@.indices + wall_view(
            old(mesh)@.positions,
            v1 as int,
            v2 as int,
            v3 as int,
            v4 as int,
        ));
    }
}

} // verus!
