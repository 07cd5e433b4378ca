//! The height sampler: combines octaves of coherent-noise samples into one
//! elevation per grid cell.
//!
//! The noise primitive itself returns values in `[-1, 1]`; callers quantize
//! each octave's sample to fixed point and hand the samples in.  Everything
//! after that point — layered accumulation, ridge shaping, sea-level
//! masking — is an exact integer function of those samples and of the
//! configured layer parameters, so the same cell always gets the same
//! elevation, which is what keeps chunk seams watertight.

use vstd::prelude::*;
use vstd::math::abs;
use crate::config::TerrainParams;
use crate::fx::{
    FX_ONE, FX_HALF, fx_mul, fx_mul_spec, clamp01, clamp01_spec,
    lemma_fx_mul_bound, lemma_fx_mul_fits, lemma_fx_mul_scale, lemma_fx_mul_monotone,
    lemma_fx_mul_zero,
};

verus! {

/// Largest magnitude admitted for a layer's `min_value`, `strength`,
/// `weight_multiplier` and for the sea level (64 in real units).
pub const PARAM_LIMIT: i64 = 0x40_0000;

/// Largest magnitude admitted for a frequency parameter (64 in real units).
pub const FREQ_LIMIT: i64 = 0x40_0000;

/// Largest admitted octave count per layer.
pub const MAX_OCTAVES: usize = 6;

/// Largest magnitude a single layer's value can reach.
pub const LAYER_LIMIT: i64 = 0x2000_0000;

/// Largest magnitude a masked ridge contribution can reach.
pub const MASK_LIMIT: i64 = 0x800_0000_0000;

/// Largest magnitude a combined elevation can reach.
pub const HEIGHT_LIMIT: i64 = 0x2000_0000_0000;

/// Parameters of one noise layer, all in fixed-point units.
///
/// `base_frequency` and `roughness` drive where the noise field is sampled
/// (the caller scales coordinates by them before sampling); `persistence`
/// decays the octave amplitude; `min_value` and `strength` shift and scale
/// the accumulated value; `weight_multiplier` only matters for ridge layers.
#[derive(Clone, Copy, PartialEq, Eq, Structural, Debug)]
pub struct LayerParams {
    pub base_frequency: i64,
    pub roughness: i64,
    pub persistence: i64,
    pub min_value: i64,
    pub strength: i64,
    pub weight_multiplier: i64,
    pub octaves: usize,
}

impl LayerParams {
    /// Bounds under which the layer arithmetic can neither overflow nor
    /// produce a non-finite value: checked once, up front.
    pub open spec fn valid(self) -> bool {
        &&& 0 < self.base_frequency <= FREQ_LIMIT
        &&& 0 < self.roughness <= FREQ_LIMIT
        &&& 0 <= self.persistence <= 2 * FX_ONE
        &&& -PARAM_LIMIT <= self.min_value <= PARAM_LIMIT
        &&& -PARAM_LIMIT <= self.strength <= PARAM_LIMIT
        &&& 0 <= self.weight_multiplier <= PARAM_LIMIT
        &&& self.octaves <= MAX_OCTAVES
    }

    /// Runtime validation, exactly `valid`.
    pub fn validate(&self) -> (b: bool)
        ensures
            b == self.valid(),
    {
        0 < self.base_frequency && self.base_frequency <= FREQ_LIMIT
            && 0 < self.roughness && self.roughness <= FREQ_LIMIT
            && 0 <= self.persistence && self.persistence <= 2 * FX_ONE
            && -PARAM_LIMIT <= self.min_value && self.min_value <= PARAM_LIMIT
            && -PARAM_LIMIT <= self.strength && self.strength <= PARAM_LIMIT
            && 0 <= self.weight_multiplier && self.weight_multiplier <= PARAM_LIMIT
            && self.octaves <= MAX_OCTAVES
    }
}

/// Powers of two, for the octave amplitude bound.
pub open spec fn pot(i: int) -> int
    decreases i,
{
    if i <= 0 {
        1
    } else {
        2 * pot(i - 1)
    }
}

pub proof fn lemma_pot_bounds(i: int, j: int)
    requires
        i <= j,
    ensures
        1 <= pot(i) <= pot(j),
    decreases j,
{
    if j <= 0 {
        assert(pot(j) == 1);
        assert(pot(i) == 1) by {
            assert(i <= 0);
        }
    } else if i == j {
        lemma_pot_bounds(i - 1, j - 1);
    } else {
        lemma_pot_bounds(i, j - 1);
    }
}

pub proof fn lemma_pot_max()
    ensures
        pot(MAX_OCTAVES as int) == 64,
{
    reveal_with_fuel(pot, 8);
}

/// The octave amplitude after `i` steps of decay by `persistence`.
pub open spec fn amp_at(persistence: int, i: int) -> int
    decreases i,
{
    if i <= 0 {
        FX_ONE as int
    } else {
        fx_mul_spec(amp_at(persistence, i - 1), persistence)
    }
}

/// A raw sample in `[-1, 1]` mapped to `[0, 1]`: `(s + 1) / 2`.
pub open spec fn half_up(s: int) -> int {
    fx_mul_spec(s + FX_ONE as int, FX_HALF as int)
}

/// The layered accumulation over the first `i` octaves:
/// each octave adds `(sample + 1) / 2` times the decaying amplitude.
pub open spec fn layered_sum(samples: Seq<i64>, persistence: int, i: int) -> int
    decreases i,
{
    if i <= 0 {
        0
    } else {
        layered_sum(samples, persistence, i - 1)
            + fx_mul_spec(half_up(samples[i - 1] as int), amp_at(persistence, i - 1))
    }
}

/// A full plain layer: the accumulated value shifted by `min_value` and
/// scaled by `strength`.
pub open spec fn layer_value(samples: Seq<i64>, p: LayerParams) -> int {
    fx_mul_spec(
        layered_sum(samples, p.persistence as int, samples.len() as int) - p.min_value,
        p.strength as int,
    )
}

/// The ridge transform of one sample: `1 - |s|`.
pub open spec fn ridge(s: int) -> int {
    FX_ONE as int - abs(s)
}

/// The squared ridge transform.
pub open spec fn ridge_sq(s: int) -> int {
    fx_mul_spec(ridge(s), ridge(s))
}

/// The ridge weight before octave `i`: starts at one, and after each octave
/// becomes that octave's weighted ridge value times `weight_multiplier`,
/// clamped to `[0, 1]` — weak octaves suppress the ones after them.
pub open spec fn rigid_weight(samples: Seq<i64>, wm: int, i: int) -> int
    decreases i,
{
    if i <= 0 {
        FX_ONE as int
    } else {
        clamp01_spec(fx_mul_spec(
            fx_mul_spec(ridge_sq(samples[i - 1] as int), rigid_weight(samples, wm, i - 1)),
            wm,
        ))
    }
}

/// Octave `i`'s ridge contribution before amplitude scaling.
pub open spec fn rigid_term(samples: Seq<i64>, wm: int, i: int) -> int {
    fx_mul_spec(ridge_sq(samples[i] as int), rigid_weight(samples, wm, i))
}

/// The ridge accumulation over the first `i` octaves.
pub open spec fn rigid_sum(samples: Seq<i64>, wm: int, persistence: int, i: int) -> int
    decreases i,
{
    if i <= 0 {
        0
    } else {
        rigid_sum(samples, wm, persistence, i - 1)
            + fx_mul_spec(rigid_term(samples, wm, i - 1), amp_at(persistence, i - 1))
    }
}

/// A full ridge layer: the accumulated ridge value shifted by `min_value`
/// and scaled by `strength`.
pub open spec fn rigid_value(samples: Seq<i64>, p: LayerParams) -> int {
    fx_mul_spec(
        rigid_sum(samples, p.weight_multiplier as int, p.persistence as int, samples.len() as int)
            - p.min_value,
        p.strength as int,
    )
}

/// The sea-level mask: `value * max(base - sea_level, 0)`.  Ridge detail is
/// suppressed at or below sea level and grows with the height above it.
pub open spec fn mask_value(sea_level: int, base: int, value: int) -> int {
    fx_mul_spec(value, if base - sea_level > 0 { base - sea_level } else { 0 })
}

/// All samples of one octave list lie in the noise range `[-1, 1]`.
pub open spec fn samples_in_range(samples: Seq<i64>) -> bool {
    forall|i: int| 0 <= i < samples.len() ==> -FX_ONE <= #[trigger] samples[i] <= FX_ONE
}

/// Accumulate one plain noise layer from its per-octave samples.
pub fn sample_layer(samples: &Vec<i64>, p: &LayerParams) -> (r: i64)
    requires
        p.valid(),
        samples@.len() == p.octaves,
        samples_in_range(samples@),
    ensures
        r == layer_value(samples@, *p),
        -LAYER_LIMIT <= r <= LAYER_LIMIT,
{
    let pers = p.persistence;
    let mut value: i64 = 0;
    let mut amp: i64 = FX_ONE;
    let mut i: usize = 0;
    while i < samples.len()
        invariant
            p.valid(),
            pers == p.persistence,
            samples@.len() == p.octaves,
            samples_in_range(samples@),
            i <= samples@.len(),
            amp == amp_at(pers as int, i as int),
            value == layered_sum(samples@, pers as int, i as int),
            0 <= amp <= FX_ONE * pot(i as int),
            0 <= value <= FX_ONE * (pot(i as int) - 1),
        decreases samples@.len() - i,
    {
        proof {
            lemma_pot_bounds(i as int, MAX_OCTAVES as int);
            lemma_pot_max();
        }
        let s = samples[i];
        proof {
            lemma_fx_mul_fits(s + FX_ONE as int, FX_HALF as int, 2 * FX_ONE as int, FX_HALF as int);
        }
        let half = fx_mul(s + FX_ONE, FX_HALF);
        proof {
            lemma_fx_mul_scale(FX_HALF as int, s + FX_ONE as int, 2);
            assert(fx_mul_spec(s + FX_ONE as int, FX_HALF as int)
                == fx_mul_spec(FX_HALF as int, s + FX_ONE as int));
            lemma_fx_mul_fits(half as int, amp as int, FX_ONE as int, 64 * FX_ONE as int);
        }
        let term = fx_mul(half, amp);
        proof {
            lemma_fx_mul_scale(amp as int, half as int, 1);
            assert(fx_mul_spec(half as int, amp as int) == fx_mul_spec(amp as int, half as int));
            lemma_fx_mul_fits(amp as int, pers as int, 64 * FX_ONE as int, 2 * FX_ONE as int);
        }
        let new_amp = fx_mul(amp, pers);
        proof {
            lemma_fx_mul_scale(amp as int, pers as int, 2);
            assert(FX_ONE * (2 * pot(i as int)) == 2 * (FX_ONE * pot(i as int)));
            assert(FX_ONE * (2 * pot(i as int) - 1)
                == FX_ONE * (pot(i as int) - 1) + FX_ONE * pot(i as int));
        }
        value = value + term;
        amp = new_amp;
        i = i + 1;
        proof {
            assert(pot(i as int) == 2 * pot(i as int - 1));
        }
    }
    proof {
        lemma_pot_bounds(i as int, MAX_OCTAVES as int);
        lemma_pot_max();
        lemma_fx_mul_fits(
            value - p.min_value,
            p.strength as int,
            64 * FX_ONE + PARAM_LIMIT,
            PARAM_LIMIT as int,
        );
        lemma_fx_mul_bound(
            value - p.min_value,
            p.strength as int,
            64 * FX_ONE + PARAM_LIMIT,
            PARAM_LIMIT as int,
        );
    }
    fx_mul(value - p.min_value, p.strength)
}

/// Accumulate one ridge ("rigid") noise layer from its per-octave samples.
pub fn sample_layer_rigid(samples: &Vec<i64>, p: &LayerParams) -> (r: i64)
    requires
        p.valid(),
        samples@.len() == p.octaves,
        samples_in_range(samples@),
    ensures
        r == rigid_value(samples@, *p),
        -LAYER_LIMIT <= r <= LAYER_LIMIT,
{
    let pers = p.persistence;
    let wm = p.weight_multiplier;
    let mut value: i64 = 0;
    let mut amp: i64 = FX_ONE;
    let mut weight: i64 = FX_ONE;
    let mut i: usize = 0;
    while i < samples.len()
        invariant
            p.valid(),
            pers == p.persistence,
            wm == p.weight_multiplier,
            samples@.len() == p.octaves,
            samples_in_range(samples@),
            i <= samples@.len(),
            amp == amp_at(pers as int, i as int),
            weight == rigid_weight(samples@, wm as int, i as int),
            value == rigid_sum(samples@, wm as int, pers as int, i as int),
            0 <= amp <= FX_ONE * pot(i as int),
            0 <= weight <= FX_ONE,
            0 <= value <= FX_ONE * (pot(i as int) - 1),
        decreases samples@.len() - i,
    {
        proof {
            lemma_pot_bounds(i as int, MAX_OCTAVES as int);
            lemma_pot_max();
        }
        let s = samples[i];
        let t = if s < 0 { FX_ONE + s } else { FX_ONE - s };
        proof {
            assert(t == ridge(s as int));
            lemma_fx_mul_fits(t as int, t as int, FX_ONE as int, FX_ONE as int);
        }
        let sq = fx_mul(t, t);
        proof {
            lemma_fx_mul_scale(t as int, t as int, 1);
            lemma_fx_mul_fits(sq as int, weight as int, FX_ONE as int, FX_ONE as int);
        }
        let v = fx_mul(sq, weight);
        proof {
            lemma_fx_mul_scale(sq as int, weight as int, 1);
            lemma_fx_mul_fits(v as int, wm as int, FX_ONE as int, PARAM_LIMIT as int);
        }
        let new_weight = clamp01(fx_mul(v, wm));
        proof {
            lemma_fx_mul_fits(v as int, amp as int, FX_ONE as int, 64 * FX_ONE as int);
        }
        let term = fx_mul(v, amp);
        proof {
            lemma_fx_mul_scale(amp as int, v as int, 1);
            assert(fx_mul_spec(v as int, amp as int) == fx_mul_spec(amp as int, v as int));
            lemma_fx_mul_fits(amp as int, pers as int, 64 * FX_ONE as int, 2 * FX_ONE as int);
        }
        let new_amp = fx_mul(amp, pers);
        proof {
            lemma_fx_mul_scale(amp as int, pers as int, 2);
            assert(FX_ONE * (2 * pot(i as int)) == 2 * (FX_ONE * pot(i as int)));
            assert(FX_ONE * (2 * pot(i as int) - 1)
                == FX_ONE * (pot(i as int) - 1) + FX_ONE * pot(i as int));
        }
        value = value + term;
        weight = new_weight;
        amp = new_amp;
        i = i + 1;
        proof {
            assert(pot(i as int) == 2 * pot(i as int - 1));
        }
    }
    proof {
        lemma_pot_bounds(i as int, MAX_OCTAVES as int);
        lemma_pot_max();
        lemma_fx_mul_fits(
            value - p.min_value,
            p.strength as int,
            64 * FX_ONE + PARAM_LIMIT,
            PARAM_LIMIT as int,
        );
        lemma_fx_mul_bound(
            value - p.min_value,
            p.strength as int,
            64 * FX_ONE + PARAM_LIMIT,
            PARAM_LIMIT as int,
        );
    }
    fx_mul(value - p.min_value, p.strength)
}

/// Apply the sea-level mask to a ridge layer's value.
pub fn mask(sea_level: i64, base: i64, value: i64) -> (r: i64)
    requires
        -PARAM_LIMIT <= sea_level <= PARAM_LIMIT,
        -LAYER_LIMIT <= base <= LAYER_LIMIT,
        -LAYER_LIMIT <= value <= LAYER_LIMIT,
    ensures
        r == mask_value(sea_level as int, base as int, value as int),
        -MASK_LIMIT <= r <= MASK_LIMIT,
{
    let diff = base - sea_level;
    let m = if diff > 0 { diff } else { 0 };
    proof {
        lemma_fx_mul_fits(value as int, m as int, LAYER_LIMIT as int, LAYER_LIMIT + PARAM_LIMIT);
        lemma_fx_mul_bound(value as int, m as int, LAYER_LIMIT as int, LAYER_LIMIT + PARAM_LIMIT);
    }
    fx_mul(value, m)
}

/// The mask is zero at or below sea level (there are no ridges underwater).
pub proof fn lemma_mask_zero_below_sea(sea_level: int, base: int, value: int)
    requires
        base <= sea_level,
    ensures
        mask_value(sea_level, base, value) == 0,
{
    lemma_fx_mul_zero(value);
}

/// The raw per-octave noise samples for one grid cell, one list per layer.
pub struct HeightInputs {
    pub base: Vec<i64>,
    pub detail: Vec<i64>,
    pub ridge_a: Vec<i64>,
    pub ridge_b: Vec<i64>,
}

impl HeightInputs {
    /// The sample lists fit the configuration: one sample per octave, each
    /// inside the noise range `[-1, 1]`.
    pub open spec fn matches(self, cfg: TerrainParams) -> bool {
        &&& self.base@.len() == cfg.base_layer.octaves
        &&& samples_in_range(self.base@)
        &&& self.detail@.len() == cfg.detail_layer.octaves
        &&& samples_in_range(self.detail@)
        &&& self.ridge_a@.len() == cfg.ridge_a.octaves
        &&& samples_in_range(self.ridge_a@)
        &&& self.ridge_b@.len() == cfg.ridge_b.octaves
        &&& samples_in_range(self.ridge_b@)
    }

    /// Runtime validation, exactly `matches`.
    pub fn check(&self, cfg: &TerrainParams) -> (b: bool)
        ensures
            b == self.matches(*cfg),
    {
        check_samples(&self.base, cfg.base_layer.octaves)
            && check_samples(&self.detail, cfg.detail_layer.octaves)
            && check_samples(&self.ridge_a, cfg.ridge_a.octaves)
            && check_samples(&self.ridge_b, cfg.ridge_b.octaves)
    }
}

/// One sample list has the expected length and stays in the noise range.
fn check_samples(v: &Vec<i64>, octaves: usize) -> (b: bool)
    ensures
        b == (v@.len() == octaves && samples_in_range(v@)),
{
    if v.len() != octaves {
        return false;
    }
    let mut i: usize = 0;
    while i < v.len()
        invariant
            i <= v@.len(),
            forall|j: int| 0 <= j < i ==> -FX_ONE <= #[trigger] v@[j] <= FX_ONE,
        decreases v@.len() - i,
    {
        if v[i] < -FX_ONE || v[i] > FX_ONE {
            return false;
        }
        i = i + 1;
    }
    true
}

/// The combined elevation of one cell: base layer, plus detail layer, plus
/// the two ridge layers masked by the base layer's height over sea level.
pub open spec fn height_value(
    cfg: TerrainParams,
    base_s: Seq<i64>,
    detail_s: Seq<i64>,
    ridge_a_s: Seq<i64>,
    ridge_b_s: Seq<i64>,
) -> int {
    let b = layer_value(base_s, cfg.base_layer);
    b + layer_value(detail_s, cfg.detail_layer)
        + mask_value(cfg.sea_level as int, b, rigid_value(ridge_a_s, cfg.ridge_a))
        + mask_value(cfg.sea_level as int, b, rigid_value(ridge_b_s, cfg.ridge_b))
}

/// Combine one cell's raw samples into its elevation.
///
/// The result is a pure function of the configuration and the samples —
/// nothing else — so a cell shared by two chunks gets bit-identical
/// elevation however often and from wherever it is recomputed.
pub fn sample_height(cfg: &TerrainParams, inp: &HeightInputs) -> (r: i64)
    requires
        cfg.valid(),
        inp.matches(*cfg),
    ensures
        r == height_value(*cfg, inp.base@, inp.detail@, inp.ridge_a@, inp.ridge_b@),
        -HEIGHT_LIMIT <= r <= HEIGHT_LIMIT,
{
    let b = sample_layer(&inp.base, &cfg.base_layer);
    let d = sample_layer(&inp.detail, &cfg.detail_layer);
    let ra = sample_layer_rigid(&inp.ridge_a, &cfg.ridge_a);
    let rb = sample_layer_rigid(&inp.ridge_b, &cfg.ridge_b);
    let m1 = mask(cfg.sea_level, b, ra);
    let m2 = mask(cfg.sea_level, b, rb);
    b + d + m1 + m2
}

/// For a fixed non-negative ridge value, the mask is monotone in the base
/// elevation: higher ground gets at least as much ridge detail.
pub proof fn lemma_mask_monotone(sea_level: int, base1: int, base2: int, value: int)
    requires
        base1 <= base2,
        0 <= value,
    ensures
        mask_value(sea_level, base1, value) <= mask_value(sea_level, base2, value),
{
    let m1 = if base1 - sea_level > 0 { base1 - sea_level } else { 0 };
    let m2 = if base2 - sea_level > 0 { base2 - sea_level } else { 0 };
    lemma_fx_mul_monotone(value, m1, m2);
}

} // verus!
