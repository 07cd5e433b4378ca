use hex_grid::config::TerrainParams;
use hex_grid::fx::{clamp01, fx_mul, FX_ONE};
use hex_grid::height::{
    mask, sample_height, sample_layer, sample_layer_rigid, HeightInputs, LayerParams,
};
use noise::{NoiseFn, SuperSimplex};

fn flat_layer(octaves: usize) -> LayerParams {
    LayerParams {
        base_frequency: FX_ONE,
        roughness: FX_ONE,
        persistence: FX_ONE,
        min_value: 0,
        strength: FX_ONE,
        weight_multiplier: FX_ONE,
        octaves,
    }
}

fn test_params() -> TerrainParams {
    TerrainParams {
        chunk_size: 4,
        map_size: 2,
        seed: 1223939298,
        sea_level: 0,
        base_layer: flat_layer(1),
        detail_layer: flat_layer(1),
        ridge_a: flat_layer(1),
        ridge_b: flat_layer(1),
    }
}

#[test]
fn fx_mul_exact_values() {
    assert_eq!(fx_mul(FX_ONE, FX_ONE), FX_ONE);
    assert_eq!(fx_mul(3 * FX_ONE, -FX_ONE / 2), -3 * FX_ONE / 2);
    // Rounded toward zero on both sides.
    assert_eq!(fx_mul(1, 1), 0);
    assert_eq!(fx_mul(-1, 1), 0);
    assert_eq!(fx_mul(FX_ONE + 1, 1), 1);
    assert_eq!(fx_mul(-(FX_ONE + 1), 1), -1);
}

#[test]
fn clamp01_edges() {
    assert_eq!(clamp01(-5), 0);
    assert_eq!(clamp01(0), 0);
    assert_eq!(clamp01(123), 123);
    assert_eq!(clamp01(FX_ONE), FX_ONE);
    assert_eq!(clamp01(FX_ONE + 1), FX_ONE);
}

#[test]
fn layer_single_octave_formula() {
    // One octave, sample 0: (0 + 1) / 2 * 1 = one half; identity shift
    // and scale keep it.
    let p = flat_layer(1);
    assert_eq!(sample_layer(&vec![0], &p), FX_ONE / 2);
    // Sample 1 gives a full unit, sample -1 nothing.
    assert_eq!(sample_layer(&vec![FX_ONE], &p), FX_ONE);
    assert_eq!(sample_layer(&vec![-FX_ONE], &p), 0);
}

#[test]
fn layer_two_octaves_with_decay() {
    // Persistence one half: second octave weighs half as much.
    let p = LayerParams { persistence: FX_ONE / 2, octaves: 2, ..flat_layer(2) };
    let r = sample_layer(&vec![FX_ONE, FX_ONE], &p);
    assert_eq!(r, FX_ONE + FX_ONE / 2);
    // min_value shifts, strength scales.
    let p2 = LayerParams { min_value: FX_ONE, strength: 2 * FX_ONE, ..p };
    let r2 = sample_layer(&vec![FX_ONE, FX_ONE], &p2);
    assert_eq!(r2, FX_ONE);
}

#[test]
fn rigid_layer_single_octave_formula() {
    // Sample 0: ridge = 1, squared = 1, weight 1 -> contributes one full
    // unit.
    let p = flat_layer(1);
    assert_eq!(sample_layer_rigid(&vec![0], &p), FX_ONE);
    // Sample 1 (or -1): ridge = 0 -> contributes nothing.
    assert_eq!(sample_layer_rigid(&vec![FX_ONE], &p), 0);
    assert_eq!(sample_layer_rigid(&vec![-FX_ONE], &p), 0);
}

#[test]
fn rigid_weight_suppresses_later_octaves() {
    // Two octaves, weight multiplier 0: the second octave's weight decays
    // to zero, so a strong second sample adds nothing.
    let p = LayerParams { weight_multiplier: 0, octaves: 2, ..flat_layer(2) };
    let r = sample_layer_rigid(&vec![0, 0], &p);
    assert_eq!(r, FX_ONE);
}

#[test]
fn mask_zero_at_or_below_sea_level() {
    let sea = 5 * FX_ONE;
    assert_eq!(mask(sea, sea, 3 * FX_ONE), 0);
    assert_eq!(mask(sea, sea - FX_ONE, 3 * FX_ONE), 0);
    assert_eq!(mask(sea, -sea, 3 * FX_ONE), 0);
}

#[test]
fn mask_grows_with_height_above_sea_level() {
    let sea = 5 * FX_ONE;
    let v = 3 * FX_ONE;
    // Exact value one unit above sea level: value * 1.
    assert_eq!(mask(sea, sea + FX_ONE, v), v);
    // Monotone in the base elevation.
    let mut prev = 0;
    for step in 0..10 {
        let m = mask(sea, sea + step * FX_ONE / 2, v);
        assert!(m >= prev);
        prev = m;
    }
}

#[test]
fn height_combines_layers_and_masks() {
    // All four layers one octave, sample 0, sea level 0: base and detail
    // are one half each; each ridge layer is one unit masked by one half.
    let cfg = test_params();
    let inp = HeightInputs {
        base: vec![0],
        detail: vec![0],
        ridge_a: vec![0],
        ridge_b: vec![0],
    };
    assert!(inp.check(&cfg));
    let h = sample_height(&cfg, &inp);
    assert_eq!(h, FX_ONE / 2 + FX_ONE / 2 + FX_ONE / 2 + FX_ONE / 2);
}

#[test]
fn height_sampler_is_deterministic() {
    // The whole pipeline, noise source included, is a pure function of
    // seed and coordinates: two evaluations agree bit for bit.
    let noise = SuperSimplex::new(1223939298);
    let again = SuperSimplex::new(1223939298);
    let cfg = test_params();
    for x in 0..8 {
        for y in 0..8 {
            let a = noise.get([x as f64 / 350.0, y as f64 / 350.0]);
            let b = again.get([x as f64 / 350.0, y as f64 / 350.0]);
            assert!(a == b);
            let s = quantize(a);
            let inp = HeightInputs {
                base: vec![s],
                detail: vec![s],
                ridge_a: vec![s],
                ridge_b: vec![s],
            };
            let h1 = sample_height(&cfg, &inp);
            let inp2 = HeightInputs {
                base: vec![s],
                detail: vec![s],
                ridge_a: vec![s],
                ridge_b: vec![s],
            };
            let h2 = sample_height(&cfg, &inp2);
            assert_eq!(h1, h2);
        }
    }
}

fn quantize(v: f64) -> i64 {
    let s = (v * FX_ONE as f64).round() as i64;
    s.clamp(-FX_ONE, FX_ONE)
}

#[test]
fn invalid_inputs_are_rejected() {
    let cfg = test_params();
    // Wrong octave count.
    let inp = HeightInputs { base: vec![], detail: vec![0], ridge_a: vec![0], ridge_b: vec![0] };
    assert!(!inp.check(&cfg));
    // Sample out of the noise range.
    let inp = HeightInputs {
        base: vec![FX_ONE + 1],
        detail: vec![0],
        ridge_a: vec![0],
        ridge_b: vec![0],
    };
    assert!(!inp.check(&cfg));
}
