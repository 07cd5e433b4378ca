use hex_grid::hex::{corner_offset, to_hex_pos};
use hex_grid::mesh::{create_quad, create_tile, MeshData, Point3, Uv};

#[test]
fn hex_transform_basics() {
    let p = to_hex_pos(0, 0, 0);
    assert_eq!((p.x, p.y, p.z), (0, 0, 0));
    let p = to_hex_pos(3, 4, 42);
    assert_eq!((p.x, p.y, p.z), (6, 42, 12));
    let p = to_hex_pos(3, 5, -7);
    assert_eq!((p.x, p.y, p.z), (7, -7, 15));
}

#[test]
fn stagger_repeats_every_two_rows() {
    // Rows r and r + 2 give the same x and a constant z advance, for
    // every column.
    for col in 0..20 {
        for row in 0..20 {
            let a = to_hex_pos(col, row, 0);
            let b = to_hex_pos(col, row + 2, 0);
            assert_eq!(a.x, b.x);
            assert_eq!(b.z - a.z, 6);
        }
    }
}

#[test]
fn corner_table() {
    let expect = [(0, 2), (1, 1), (1, -1), (0, -2), (-1, -1), (-1, 1)];
    for i in 0..6 {
        assert_eq!(corner_offset(i), expect[i]);
    }
}

#[test]
fn tile_emits_seven_vertices_and_eighteen_indices() {
    let mut m = MeshData::new();
    let center = Point3 { x: 10, y: 99, z: 20 };
    create_tile(&mut m, center);
    assert_eq!(m.positions.len(), 7);
    assert_eq!(m.uvs.len(), 7);
    assert_eq!(m.normals.len(), 7);
    assert_eq!(m.indices.len(), 18);
    // Every index stays inside the tile's own seven-vertex block.
    for &i in m.indices.iter() {
        assert!(i < 7);
    }
    // Center first, then the six corners at the fixed offsets.
    assert_eq!(m.positions[0], Point3 { x: 10, y: 99, z: 20 });
    let expect = [(0, 2), (1, 1), (1, -1), (0, -2), (-1, -1), (-1, 1)];
    for i in 0..6 {
        let p = m.positions[1 + i];
        assert_eq!((p.x - 10, p.y, p.z - 20), (expect[i].0, 99, expect[i].1));
        assert_eq!(m.uvs[1 + i], Uv { u: p.x, v: p.z });
    }
    // Six fan triangles: center, corner i, next corner around.
    let mut want: Vec<u32> = Vec::new();
    for i in 0u32..6 {
        want.push(0);
        want.push(1 + i);
        want.push(1 + (i + 1) % 6);
    }
    assert_eq!(m.indices, want);
}

#[test]
fn second_tile_block_is_offset_by_seven() {
    let mut m = MeshData::new();
    create_tile(&mut m, Point3 { x: 0, y: 1, z: 0 });
    create_tile(&mut m, Point3 { x: 2, y: 5, z: 0 });
    assert_eq!(m.positions.len(), 14);
    assert_eq!(m.indices.len(), 36);
    for &i in m.indices[18..].iter() {
        assert!((7..14).contains(&i));
    }
}

#[test]
fn quad_skipped_between_equal_elevations() {
    let mut m = MeshData::new();
    create_tile(&mut m, Point3 { x: 0, y: 3, z: 0 });
    create_tile(&mut m, Point3 { x: 2, y: 3, z: 0 });
    let before = m.indices.len();
    create_quad(&mut m, 2, 3, 12, 13);
    assert_eq!(m.indices.len(), before);
}

#[test]
fn quad_emitted_between_different_elevations() {
    let mut m = MeshData::new();
    create_tile(&mut m, Point3 { x: 0, y: 3, z: 0 });
    create_tile(&mut m, Point3 { x: 2, y: 4, z: 0 });
    let before = m.indices.len();
    create_quad(&mut m, 2, 3, 12, 13);
    assert_eq!(m.indices.len(), before + 6);
    assert_eq!(&m.indices[before..], &[2, 12, 3, 2, 13, 12]);
}
