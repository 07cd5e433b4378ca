use hex_grid::config::TerrainParams;
use hex_grid::chunk::create_chunk;
use hex_grid::fx::FX_ONE;
use hex_grid::grid::HeightGrid;
use hex_grid::height::{sample_height, HeightInputs, LayerParams, HEIGHT_LIMIT};
use hex_grid::terrain::HexGrid;
use noise::{NoiseFn, SuperSimplex};

const NOISE_SCALE: f64 = 350.0;

fn fxp(v: f64) -> i64 {
    (v * FX_ONE as f64).round() as i64
}

/// The reference configuration: four noise layers over a small map.
fn params(map_size: usize, chunk_size: usize) -> TerrainParams {
    TerrainParams {
        chunk_size,
        map_size,
        seed: 1223939298,
        sea_level: fxp(5.0),
        base_layer: LayerParams {
            base_frequency: fxp(2.14),
            roughness: fxp(0.87),
            persistence: fxp(0.77),
            min_value: fxp(-0.2),
            strength: fxp(2.93),
            weight_multiplier: 0,
            octaves: 4,
        },
        detail_layer: LayerParams {
            base_frequency: fxp(2.85),
            roughness: fxp(2.0),
            persistence: fxp(1.0),
            min_value: 0,
            strength: fxp(-0.23),
            weight_multiplier: 0,
            octaves: 4,
        },
        ridge_a: LayerParams {
            base_frequency: fxp(2.6),
            roughness: fxp(4.0),
            persistence: fxp(1.57),
            min_value: 0,
            strength: fxp(10.44),
            weight_multiplier: fxp(0.35),
            octaves: 4,
        },
        ridge_b: LayerParams {
            base_frequency: fxp(3.87),
            roughness: fxp(5.8),
            persistence: 0,
            min_value: 0,
            strength: fxp(-1.0),
            weight_multiplier: fxp(4.57),
            octaves: 3,
        },
    }
}

fn quantize(v: f64) -> i64 {
    let s = (v * FX_ONE as f64).round() as i64;
    s.clamp(-FX_ONE, FX_ONE)
}

fn octave_samples(noise: &SuperSimplex, p: &LayerParams, gx: usize, gy: usize) -> Vec<i64> {
    let xs = gx as f64 / NOISE_SCALE;
    let ys = gy as f64 / NOISE_SCALE;
    let mut freq = p.base_frequency as f64 / FX_ONE as f64;
    let rough = p.roughness as f64 / FX_ONE as f64;
    let mut out = Vec::new();
    for _ in 0..p.octaves {
        out.push(quantize(noise.get([xs * freq, ys * freq])));
        freq *= rough;
    }
    out
}

/// Sample the whole elevation field the way the rendering layer does:
/// noise octaves quantized to fixed point, combined by the library.
fn sample_grid(cfg: &TerrainParams) -> HeightGrid {
    let noise = SuperSimplex::new(cfg.seed);
    let size = cfg.map_size * cfg.chunk_size + 1;
    let mut values = Vec::new();
    for z in 0..size {
        for x in 0..size {
            let inp = HeightInputs {
                base: octave_samples(&noise, &cfg.base_layer, x, z),
                detail: octave_samples(&noise, &cfg.detail_layer, x, z),
                ridge_a: octave_samples(&noise, &cfg.ridge_a, x, z),
                ridge_b: octave_samples(&noise, &cfg.ridge_b, x, z),
            };
            assert!(inp.check(cfg));
            values.push(sample_height(cfg, &inp));
        }
    }
    HeightGrid::new(size, values).unwrap()
}

#[test]
fn configuration_is_validated_up_front() {
    assert!(HexGrid::new(params(2, 4)).is_some());
    // Odd chunk side: the stagger would not tile across chunks.
    assert!(HexGrid::new(TerrainParams { chunk_size: 5, ..params(2, 4) }).is_none());
    assert!(HexGrid::new(TerrainParams { chunk_size: 0, ..params(2, 4) }).is_none());
    assert!(HexGrid::new(TerrainParams { map_size: 0, ..params(2, 4) }).is_none());
    // Too large overall.
    assert!(HexGrid::new(TerrainParams { map_size: 3000, ..params(2, 4) }).is_none());
    // Degenerate layer parameters are rejected rather than clamped.
    let mut bad = params(2, 4);
    bad.base_layer.roughness = 0;
    assert!(HexGrid::new(bad).is_none());
    let mut bad = params(2, 4);
    bad.ridge_a.persistence = -1;
    assert!(HexGrid::new(bad).is_none());
    let mut bad = params(2, 4);
    bad.detail_layer.octaves = 7;
    assert!(HexGrid::new(bad).is_none());
}

#[test]
fn height_grid_is_validated() {
    assert!(HeightGrid::new(2, vec![0, 1, 2]).is_none());
    assert!(HeightGrid::new(2, vec![0, 1, 2, HEIGHT_LIMIT + 1]).is_none());
    assert!(HeightGrid::new(9999, vec![]).is_none());
    let g = HeightGrid::new(2, vec![10, 20, 30, 40]).unwrap();
    assert_eq!(g.get(1, 0), 20);
    assert_eq!(g.get(0, 1), 30);
}

fn has_wall(indices: &[u32], v1: u32, v2: u32, v3: u32, v4: u32) -> bool {
    let pat = [v1, v3, v2, v1, v4, v3];
    indices.chunks_exact(6).any(|w| w == pat)
}

#[test]
fn walls_exactly_between_uneven_neighbors() {
    // One 4 x 4 chunk with hand-picked elevations holding both equal and
    // unequal adjacent pairs; check every pair exhaustively.
    let cfg = params(1, 4);
    let table: [[i64; 4]; 4] = [[0, 0, 1, 2], [1, 1, 1, 0], [2, 0, 0, 1], [0, 1, 2, 2]];
    let size = 5;
    let mut values = vec![0i64; size * size];
    for z in 0..4 {
        for x in 0..4 {
            values[z * size + x] = table[z][x] * FX_ONE;
        }
    }
    let grid = HeightGrid::new(size, values).unwrap();
    let m = create_chunk(&cfg, 0, 0, &grid);
    assert_eq!(m.positions.len(), 4 * 4 * 7);
    assert_eq!(m.indices.len() % 6, 0);
    let walls = &m.indices[4 * 4 * 18..];
    let h = |x: usize, z: usize| table[z][x];
    let mut expected = 0;
    for z in 0..4usize {
        for x in 0..4usize {
            let b = (7 * (z * 4 + x)) as u32;
            if x < 3 {
                let differ = h(x, z) != h(x + 1, z);
                assert_eq!(has_wall(walls, b + 2, b + 3, b + 12, b + 13), differ);
                expected += differ as usize;
            }
            if z < 3 && z % 2 == 0 {
                let differ = h(x, z) != h(x, z + 1);
                assert_eq!(has_wall(walls, b + 1, b + 2, b + 28 + 4, b + 28 + 5), differ);
                expected += differ as usize;
            }
            if z < 3 && z % 2 == 1 && x < 3 {
                let differ = h(x, z) != h(x + 1, z + 1);
                assert_eq!(has_wall(walls, b + 1, b + 2, b + 28 + 11, b + 28 + 12), differ);
                expected += differ as usize;
            }
            if x > 0 && z % 2 == 0 {
                let differ = h(x, z) != h(x - 1, z + 1);
                assert_eq!(has_wall(walls, b + 6, b + 1, b + 28 - 4, b + 28 - 3), differ);
                expected += differ as usize;
            }
            if z % 2 == 1 && z < 3 {
                let differ = h(x, z) != h(x, z + 1);
                assert_eq!(has_wall(walls, b + 6, b + 1, b + 28 + 3, b + 28 + 4), differ);
                expected += differ as usize;
            }
        }
    }
    // Nothing but those walls was emitted.
    assert_eq!(walls.len(), 6 * expected);
}

#[test]
fn chunk_seams_meet_exactly() {
    // The east-seam vertices of chunk (0,0) coincide in world space with
    // chunk (1,0)'s own column-0 corner vertices, elevation included.
    let cfg = params(2, 4);
    let grid = sample_grid(&cfg);
    let map = HexGrid::new(cfg).unwrap().build(&grid);
    let a = &map[0];
    let b = &map[1];
    assert_eq!((a.chunk_x, a.chunk_z), (0, 0));
    assert_eq!((b.chunk_x, b.chunk_z), (1, 0));
    // Row z's east-seam vertex pair starts at these slots (two vertices
    // per row, plus four more on odd interior rows).
    let ebase = [112, 114, 120, 122];
    for z in 0..4usize {
        let pa0 = a.mesh.positions[ebase[z]];
        let pa1 = a.mesh.positions[ebase[z] + 1];
        let nb = 7 * (z * 4);
        let pb0 = b.mesh.positions[nb + 5];
        let pb1 = b.mesh.positions[nb + 6];
        assert_eq!(a.offset.x + pa0.x, b.offset.x + pb0.x);
        assert_eq!(a.offset.z + pa0.z, b.offset.z + pb0.z);
        assert_eq!(pa0.y, pb0.y);
        assert_eq!(a.offset.x + pa1.x, b.offset.x + pb1.x);
        assert_eq!(a.offset.z + pa1.z, b.offset.z + pb1.z);
        assert_eq!(pa1.y, pb1.y);
    }
}

#[test]
fn full_map_counts_and_index_ranges() {
    // A 2 x 2 map of 4 x 4 chunks from the fixed seed: every chunk holds
    // its sixteen tile fans plus its seam vertices, and no index points
    // outside its buffers.
    let cfg = params(2, 4);
    let grid = sample_grid(&cfg);
    let map = HexGrid::new(cfg).unwrap().build(&grid);
    assert_eq!(map.len(), 4);
    // Per chunk: 112 fan vertices; an east seam (when an east neighbor
    // exists) adds 4 * 4 - 2 vertices, a south seam adds 4 * 4.
    let expect = [112 + 14 + 16, 112 + 16, 112 + 14, 112];
    for (k, chunk) in map.iter().enumerate() {
        assert_eq!((chunk.chunk_x, chunk.chunk_z), (k % 2, k / 2));
        assert_eq!(chunk.mesh.positions.len(), expect[k]);
        assert_eq!(chunk.mesh.uvs.len(), expect[k]);
        assert_eq!(chunk.mesh.normals.len(), expect[k]);
        for &i in chunk.mesh.indices.iter() {
            assert!((i as usize) < chunk.mesh.positions.len());
        }
    }
    let total: usize = map.iter().map(|c| c.mesh.positions.len()).sum();
    assert_eq!(total, 2 * 2 * (4 * 4 * 7) + 60);
    // Chunk placement offsets follow the hex transform of the chunk's
    // first cell.
    assert_eq!((map[1].offset.x, map[1].offset.z), (8, 0));
    assert_eq!((map[2].offset.x, map[2].offset.z), (0, 12));
    assert_eq!((map[3].offset.x, map[3].offset.z), (8, 12));
}
