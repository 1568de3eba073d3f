//! Noise module that outputs ridged-multifractal noise.
//!
//! Generated much like fractal-Brownian-motion noise, except that each
//! octave's output is folded through an absolute-value function and the
//! octaves are mixed under a weight fed back from the previous octave,
//! which sharpens the ridges.  The output usually ranges over one unit
//! either side of zero with default parameters, but no strict range is
//! guaranteed.
//!
//! The configuration is an immutable value: every setter returns a new
//! instance, rebuilding the derived source sequence whenever a field it
//! depends on changes.

use vstd::prelude::*;
use vstd::arithmetic::power2::pow2;
use crate::fixed::{
    abs_int, clamp01_spec, fx_add, fx_add_spec, fx_clamp01, fx_mul, fx_mul_spec, lemma_fx_mul_one,
};
use crate::fractals::{build_sources, build_sources_periodic, source_ok, source_ok_periodic};
use crate::perlin::{
    lemma_perlin2_bound, lemma_perlin2_periodic_tiling, lemma_perlin3_bound,
    lemma_perlin3_periodic_tiling, lemma_perlin4_bound, lemma_perlin4_periodic_tiling, perlin2_of,
    perlin3_of, perlin4_of, Perlin,
};

verus! {

/// Default noise seed for the RidgedMulti noise module.
pub const DEFAULT_RIDGED_SEED: usize = 0;

/// Default number of octaves for the RidgedMulti noise module.
pub const DEFAULT_RIDGED_OCTAVE_COUNT: usize = 6;

/// Default frequency for the RidgedMulti noise module: one unit.
pub const DEFAULT_RIDGED_FREQUENCY: i64 = 65536;

/// Default lacunarity for the RidgedMulti noise module: two units.
pub const DEFAULT_RIDGED_LACUNARITY: i64 = 131072;

/// Default persistence for the RidgedMulti noise module: one unit.
pub const DEFAULT_RIDGED_PERSISTENCE: i64 = 65536;

/// Default gain for the RidgedMulti noise module: two units.
pub const DEFAULT_RIDGED_GAIN: i64 = 131072;

/// Default period for the RidgedMulti noise module.
pub const DEFAULT_RIDGED_PERIOD: usize = 256;

/// Maximum number of octaves for the RidgedMulti noise module.
pub const RIDGED_MAX_OCTAVES: usize = 32;

/// One third of a unit: the final sum is scaled by it before shifting.
pub const FX_THIRD: i64 = 21845;

/// An octave count, clipped into the accepted range.
pub open spec fn clamp_octaves(o: int) -> int {
    if o > 32 {
        32
    } else if o < 1 {
        1
    } else {
        o
    }
}

/// Noise module that outputs ridged-multifractal noise.
#[derive(Clone, Debug)]
pub struct RidgedMulti {
    /// Seed.
    pub seed: usize,
    /// Total number of frequency octaves to generate the noise with; more
    /// octaves mean more detail at more cost.
    pub octaves: usize,
    /// The number of cycles per unit length that the noise outputs.
    pub frequency: i64,
    /// Per-octave frequency multiplier: each octave's frequency is the
    /// previous octave's times this.
    pub lacunarity: i64,
    /// Per-octave amplitude multiplier: each octave's amplitude is the
    /// previous octave's times this.
    pub persistence: i64,
    /// The gain applied to the weight fed back into each octave.
    pub gain: i64,
    /// Extent at which the noise grid wraps around, yielding seamlessly
    /// periodic noise in all dimensions.
    pub period: usize,
    /// Whether periodic wrap-around is active.
    pub enable_period: bool,
    /// The derived source sequence: one independently seeded kernel per
    /// octave, rebuilt whenever seed, octave count, lacunarity or period
    /// settings change.
    pub sources: Vec<Perlin>,
}

/// One evaluation, octave by octave: at octave `i` the signal is the
/// source's sample, folded (`1 - |s|`), squared to sharpen the ridges,
/// scaled by the running weight; the weight fed to the next octave is the
/// signal times the gain, clipped into `[0, 1]`; the signal, scaled by
/// `persistence^i` (carried in `powp`), joins the accumulator; the point
/// is scaled by the lacunarity.
pub open spec fn ridged_rec2(
    srcs: Seq<Perlin>,
    lac: int,
    pers: int,
    gain: int,
    i: nat,
    px: int,
    py: int,
    w: int,
    powp: int,
    acc: int,
) -> int
    decreases srcs.len() - i,
{
    if i >= srcs.len() {
        acc
    } else {
        let s = perlin2_of(srcs[i as int], px, py);
        let folded = 65536 - abs_int(s);
        let sharp = fx_mul_spec(folded, folded);
        let signal = fx_mul_spec(sharp, w);
        ridged_rec2(
            srcs,
            lac,
            pers,
            gain,
            i + 1,
            fx_mul_spec(px, lac),
            fx_mul_spec(py, lac),
            clamp01_spec(fx_mul_spec(signal, gain)),
            fx_mul_spec(powp, pers),
            fx_add_spec(acc, fx_mul_spec(signal, powp)),
        )
    }
}

/// The 2-dimensional ridged-multifractal value: the octave sum, scaled by
/// a third and shifted down one unit toward the usual output range.
pub open spec fn ridged2_of(m: RidgedMulti, px: int, py: int) -> int {
    let total = ridged_rec2(
        m.sources@,
        m.lacunarity as int,
        m.persistence as int,
        m.gain as int,
        0,
        fx_mul_spec(px, m.frequency as int),
        fx_mul_spec(py, m.frequency as int),
        65536,
        65536,
        0,
    );
    fx_add_spec(fx_mul_spec(total, FX_THIRD as int), -65536)
}

impl RidgedMulti {
    /// The combinator's configuration invariant: the octave count lies in
    /// the accepted range and the source sequence is exactly the one the
    /// seed, octave count and period settings call for.
    pub open spec fn well_formed(&self) -> bool {
        &&& 1 <= self.octaves <= RIDGED_MAX_OCTAVES
        &&& self.sources@.len() == self.octaves
        &&& if self.enable_period {
            forall|i: int| 0 <= i < self.octaves ==> source_ok_periodic(
                #[trigger] self.sources@[i],
                self.seed,
                i,
                self.period as int,
                self.lacunarity as int,
            )
        } else {
            forall|i: int| 0 <= i < self.octaves ==> source_ok(
                #[trigger] self.sources@[i],
                self.seed,
                i,
            )
        }
    }

    /// A default-configured instance.
    pub fn new() -> (r: RidgedMulti)
        ensures
            r.seed == DEFAULT_RIDGED_SEED,
            r.octaves == DEFAULT_RIDGED_OCTAVE_COUNT,
            r.frequency == DEFAULT_RIDGED_FREQUENCY,
            r.lacunarity == DEFAULT_RIDGED_LACUNARITY,
            r.persistence == DEFAULT_RIDGED_PERSISTENCE,
            r.gain == DEFAULT_RIDGED_GAIN,
            r.period == DEFAULT_RIDGED_PERIOD,
            !r.enable_period,
            r.well_formed(),
    {
        RidgedMulti {
            seed: DEFAULT_RIDGED_SEED,
            octaves: DEFAULT_RIDGED_OCTAVE_COUNT,
            frequency: DEFAULT_RIDGED_FREQUENCY,
            lacunarity: DEFAULT_RIDGED_LACUNARITY,
            persistence: DEFAULT_RIDGED_PERSISTENCE,
            gain: DEFAULT_RIDGED_GAIN,
            period: DEFAULT_RIDGED_PERIOD,
            enable_period: false,
            sources: build_sources(DEFAULT_RIDGED_SEED, DEFAULT_RIDGED_OCTAVE_COUNT),
        }
    }

    /// A copy with the given seed; the source sequence is rebuilt unless
    /// the seed is unchanged, in which case the instance is returned as
    /// it is.
    pub fn set_seed(self, seed: usize) -> (r: RidgedMulti)
        requires
            self.well_formed(),
        ensures
            r.seed == seed,
            r.octaves == self.octaves,
            r.frequency == self.frequency,
            r.lacunarity == self.lacunarity,
            r.persistence == self.persistence,
            r.gain == self.gain,
            r.period == self.period,
            r.enable_period == self.enable_period,
            r.well_formed(),
            self.seed == seed ==> r == self,
    {
        if self.seed == seed {
            return self;
        }
        if !self.enable_period {
            RidgedMulti { seed, sources: build_sources(seed, self.octaves), ..self }
        } else {
            RidgedMulti {
                seed,
                sources: build_sources_periodic(seed, self.octaves, self.period, self.lacunarity),
                ..self
            }
        }
    }

    /// A copy with the given octave count, clipped into `[1, 32]`; the
    /// source sequence is rebuilt unless the count is unchanged, in which
    /// case the instance is returned as it is.
    pub fn set_octaves(self, octaves: usize) -> (r: RidgedMulti)
        requires
            self.well_formed(),
        ensures
            r.octaves as int == clamp_octaves(octaves as int),
            r.seed == self.seed,
            r.frequency == self.frequency,
            r.lacunarity == self.lacunarity,
            r.persistence == self.persistence,
            r.gain == self.gain,
            r.period == self.period,
            r.enable_period == self.enable_period,
            r.well_formed(),
            self.octaves == octaves ==> r == self,
    {
        if self.octaves == octaves {
            return self;
        }
        let clipped: usize = if octaves > RIDGED_MAX_OCTAVES {
            RIDGED_MAX_OCTAVES
        } else if octaves < 1 {
            1
        } else {
            octaves
        };
        if !self.enable_period {
            RidgedMulti { octaves: clipped, sources: build_sources(self.seed, clipped), ..self }
        } else {
            RidgedMulti {
                octaves: clipped,
                sources: build_sources_periodic(
                    self.seed,
                    clipped,
                    self.period,
                    self.lacunarity,
                ),
                ..self
            }
        }
    }

    /// A copy with the given frequency; nothing derived depends on it.
    pub fn set_frequency(self, frequency: i64) -> (r: RidgedMulti)
        ensures
            r.frequency == frequency,
            r.seed == self.seed,
            r.octaves == self.octaves,
            r.lacunarity == self.lacunarity,
            r.persistence == self.persistence,
            r.gain == self.gain,
            r.period == self.period,
            r.enable_period == self.enable_period,
            r.sources == self.sources,
            self.well_formed() ==> r.well_formed(),
    {
        RidgedMulti { frequency, ..self }
    }

    /// A copy with the given lacunarity; with periodic wrap-around active
    /// the source sequence is rebuilt, since the per-octave periods scale
    /// by the lacunarity.
    pub fn set_lacunarity(self, lacunarity: i64) -> (r: RidgedMulti)
        requires
            self.well_formed(),
        ensures
            r.lacunarity == lacunarity,
            r.seed == self.seed,
            r.octaves == self.octaves,
            r.frequency == self.frequency,
            r.persistence == self.persistence,
            r.gain == self.gain,
            r.period == self.period,
            r.enable_period == self.enable_period,
            r.well_formed(),
            !self.enable_period ==> r.sources == self.sources,
    {
        if !self.enable_period {
            RidgedMulti { lacunarity, ..self }
        } else {
            RidgedMulti {
                lacunarity,
                sources: build_sources_periodic(self.seed, self.octaves, self.period, lacunarity),
                ..self
            }
        }
    }

    /// A copy with periodic wrap-around active at the given period; the
    /// source sequence is rebuilt on the lacunarity-scaled schedule.
    pub fn set_period(self, period: usize) -> (r: RidgedMulti)
        requires
            self.well_formed(),
        ensures
            r.period == period,
            r.enable_period,
            r.seed == self.seed,
            r.octaves == self.octaves,
            r.frequency == self.frequency,
            r.lacunarity == self.lacunarity,
            r.persistence == self.persistence,
            r.gain == self.gain,
            r.well_formed(),
    {
        RidgedMulti {
            period,
            enable_period: true,
            sources: build_sources_periodic(self.seed, self.octaves, period, self.lacunarity),
            ..self
        }
    }

    /// A copy with the given persistence; nothing derived depends on it.
    pub fn set_persistence(self, persistence: i64) -> (r: RidgedMulti)
        ensures
            r.persistence == persistence,
            r.seed == self.seed,
            r.octaves == self.octaves,
            r.frequency == self.frequency,
            r.lacunarity == self.lacunarity,
            r.gain == self.gain,
            r.period == self.period,
            r.enable_period == self.enable_period,
            r.sources == self.sources,
            self.well_formed() ==> r.well_formed(),
    {
        RidgedMulti { persistence, ..self }
    }

    /// A copy with the given gain; nothing derived depends on it.
    pub fn set_gain(self, gain: i64) -> (r: RidgedMulti)
        ensures
            r.gain == gain,
            r.seed == self.seed,
            r.octaves == self.octaves,
            r.frequency == self.frequency,
            r.lacunarity == self.lacunarity,
            r.persistence == self.persistence,
            r.period == self.period,
            r.enable_period == self.enable_period,
            r.sources == self.sources,
            self.well_formed() ==> r.well_formed(),
    {
        RidgedMulti { gain, ..self }
    }
}

impl crate::NoiseModule<[i64; 2]> for RidgedMulti {
    open spec fn wf(&self) -> bool {
        self.well_formed()
    }

    open spec fn spec_get(&self, point: [i64; 2]) -> int {
        ridged2_of(*self, point[0] as int, point[1] as int)
    }

    fn get(&self, point: [i64; 2]) -> (r: i64) {
        let mut px: i64 = fx_mul(point[0], self.frequency);
        let mut py: i64 = fx_mul(point[1], self.frequency);
        let ghost px0 = px as int;
        let ghost py0 = py as int;
        let mut result: i64 = 0;
        let mut weight: i64 = 65536;
        let mut powp: i64 = 65536;
        let mut x: usize = 0;
        while x < self.octaves
            invariant
                self.well_formed(),
                x <= self.octaves,
                0 <= weight <= 65536,
                ridged_rec2(
                    self.sources@,
                    self.lacunarity as int,
                    self.persistence as int,
                    self.gain as int,
                    x as nat,
                    px as int,
                    py as int,
                    weight as int,
                    powp as int,
                    result as int,
                ) == ridged_rec2(
                    self.sources@,
                    self.lacunarity as int,
                    self.persistence as int,
                    self.gain as int,
                    0,
                    px0,
                    py0,
                    65536,
                    65536,
                    0,
                ),
            decreases self.octaves - x,
        {
            let s: i64 = self.sources[x].get([px, py]);
            proof {
                let src = self.sources@[x as int];
                lemma_perlin2_bound(
                    src.perm_table.values@,
                    src.enable_period,
                    src.period as int,
                    px as int,
                    py as int,
                );
            }
            let a: i64 = if s < 0 {
                -s
            } else {
                s
            };
            let folded: i64 = 65536 - a;
            let sharp: i64 = fx_mul(folded, folded);
            let signal: i64 = fx_mul(sharp, weight);
            weight = fx_clamp01(fx_mul(signal, self.gain));
            result = fx_add(result, fx_mul(signal, powp));
            powp = fx_mul(powp, self.persistence);
            px = fx_mul(px, self.lacunarity);
            py = fx_mul(py, self.lacunarity);
            x = x + 1;
        }
        fx_add(fx_mul(result, FX_THIRD), -65536)
    }
}

/// One evaluation over 3-dimensional points, octave by octave.
pub open spec fn ridged_rec3(
    srcs: Seq<Perlin>,
    lac: int,
    pers: int,
    gain: int,
    i: nat,
    px: int,
    py: int,
    pz: int,
    w: int,
    powp: int,
    acc: int,
) -> int
    decreases srcs.len() - i,
{
    if i >= srcs.len() {
        acc
    } else {
        let s = perlin3_of(srcs[i as int], px, py, pz);
        let folded = 65536 - abs_int(s);
        let sharp = fx_mul_spec(folded, folded);
        let signal = fx_mul_spec(sharp, w);
        ridged_rec3(
            srcs,
            lac,
            pers,
            gain,
            i + 1,
            fx_mul_spec(px, lac),
            fx_mul_spec(py, lac),
            fx_mul_spec(pz, lac),
            clamp01_spec(fx_mul_spec(signal, gain)),
            fx_mul_spec(powp, pers),
            fx_add_spec(acc, fx_mul_spec(signal, powp)),
        )
    }
}

/// The 3-dimensional ridged-multifractal value.
pub open spec fn ridged3_of(m: RidgedMulti, px: int, py: int, pz: int) -> int {
    let total = ridged_rec3(
        m.sources@,
        m.lacunarity as int,
        m.persistence as int,
        m.gain as int,
        0,
        fx_mul_spec(px, m.frequency as int),
        fx_mul_spec(py, m.frequency as int),
        fx_mul_spec(pz, m.frequency as int),
        65536,
        65536,
        0,
    );
    fx_add_spec(fx_mul_spec(total, FX_THIRD as int), -65536)
}

impl crate::NoiseModule<[i64; 3]> for RidgedMulti {
    open spec fn wf(&self) -> bool {
        self.well_formed()
    }

    open spec fn spec_get(&self, point: [i64; 3]) -> int {
        ridged3_of(*self, point[0] as int, point[1] as int, point[2] as int)
    }

    #[verifier::rlimit(60)]
    fn get(&self, point: [i64; 3]) -> (r: i64) {
        let mut px: i64 = fx_mul(point[0], self.frequency);
        let mut py: i64 = fx_mul(point[1], self.frequency);
        let mut pz: i64 = fx_mul(point[2], self.frequency);
        let ghost px0 = px as int;
        let ghost py0 = py as int;
        let ghost pz0 = pz as int;
        let mut result: i64 = 0;
        let mut weight: i64 = 65536;
        let mut powp: i64 = 65536;
        let mut x: usize = 0;
        while x < self.octaves
            invariant
                self.well_formed(),
                x <= self.octaves,
                0 <= weight <= 65536,
                ridged_rec3(
                    self.sources@,
                    self.lacunarity as int,
                    self.persistence as int,
                    self.gain as int,
                    x as nat,
                    px as int,
                    py as int,
                    pz as int,
                    weight as int,
                    powp as int,
                    result as int,
                ) == ridged_rec3(
                    self.sources@,
                    self.lacunarity as int,
                    self.persistence as int,
                    self.gain as int,
                    0,
                    px0,
                    py0,
                    pz0,
                    65536,
                    65536,
                    0,
                ),
            decreases self.octaves - x,
        {
            let s: i64 = self.sources[x].get([px, py, pz]);
            proof {
                let src = self.sources@[x as int];
                lemma_perlin3_bound(
                    src.perm_table.values@,
                    src.enable_period,
                    src.period as int,
                    px as int,
                    py as int,
                    pz as int,
                );
            }
            let a: i64 = if s < 0 {
                -s
            } else {
                s
            };
            let folded: i64 = 65536 - a;
            let sharp: i64 = fx_mul(folded, folded);
            let signal: i64 = fx_mul(sharp, weight);
            weight = fx_clamp01(fx_mul(signal, self.gain));
            result = fx_add(result, fx_mul(signal, powp));
            powp = fx_mul(powp, self.persistence);
            px = fx_mul(px, self.lacunarity);
            py = fx_mul(py, self.lacunarity);
            pz = fx_mul(pz, self.lacunarity);
            x = x + 1;
        }
        fx_add(fx_mul(result, FX_THIRD), -65536)
    }
}

/// One evaluation over 4-dimensional points, octave by octave.
pub open spec fn ridged_rec4(
    srcs: Seq<Perlin>,
    lac: int,
    pers: int,
    gain: int,
    i: nat,
    px: int,
    py: int,
    pz: int,
    pw: int,
    w: int,
    powp: int,
    acc: int,
) -> int
    decreases srcs.len() - i,
{
    if i >= srcs.len() {
        acc
    } else {
        let s = perlin4_of(srcs[i as int], px, py, pz, pw);
        let folded = 65536 - abs_int(s);
        let sharp = fx_mul_spec(folded, folded);
        let signal = fx_mul_spec(sharp, w);
        ridged_rec4(
            srcs,
            lac,
            pers,
            gain,
            i + 1,
            fx_mul_spec(px, lac),
            fx_mul_spec(py, lac),
            fx_mul_spec(pz, lac),
            fx_mul_spec(pw, lac),
            clamp01_spec(fx_mul_spec(signal, gain)),
            fx_mul_spec(powp, pers),
            fx_add_spec(acc, fx_mul_spec(signal, powp)),
        )
    }
}

/// The 4-dimensional ridged-multifractal value.
pub open spec fn ridged4_of(m: RidgedMulti, px: int, py: int, pz: int, pw: int) -> int {
    let total = ridged_rec4(
        m.sources@,
        m.lacunarity as int,
        m.persistence as int,
        m.gain as int,
        0,
        fx_mul_spec(px, m.frequency as int),
        fx_mul_spec(py, m.frequency as int),
        fx_mul_spec(pz, m.frequency as int),
        fx_mul_spec(pw, m.frequency as int),
        65536,
        65536,
        0,
    );
    fx_add_spec(fx_mul_spec(total, FX_THIRD as int), -65536)
}

impl crate::NoiseModule<[i64; 4]> for RidgedMulti {
    open spec fn wf(&self) -> bool {
        self.well_formed()
    }

    open spec fn spec_get(&self, point: [i64; 4]) -> int {
        ridged4_of(*self, point[0] as int, point[1] as int, point[2] as int, point[3] as int)
    }

    #[verifier::rlimit(60)]
    fn get(&self, point: [i64; 4]) -> (r: i64) {
        let mut px: i64 = fx_mul(point[0], self.frequency);
        let mut py: i64 = fx_mul(point[1], self.frequency);
        let mut pz: i64 = fx_mul(point[2], self.frequency);
        let mut pw: i64 = fx_mul(point[3], self.frequency);
        let ghost px0 = px as int;
        let ghost py0 = py as int;
        let ghost pz0 = pz as int;
        let ghost pw0 = pw as int;
        let mut result: i64 = 0;
        let mut weight: i64 = 65536;
        let mut powp: i64 = 65536;
        let mut x: usize = 0;
        while x < self.octaves
            invariant
                self.well_formed(),
                x <= self.octaves,
                0 <= weight <= 65536,
                ridged_rec4(
                    self.sources@,
                    self.lacunarity as int,
                    self.persistence as int,
                    self.gain as int,
                    x as nat,
                    px as int,
                    py as int,
                    pz as int,
                    pw as int,
                    weight as int,
                    powp as int,
                    result as int,
                ) == ridged_rec4(
                    self.sources@,
                    self.lacunarity as int,
                    self.persistence as int,
                    self.gain as int,
                    0,
                    px0,
                    py0,
                    pz0,
                    pw0,
                    65536,
                    65536,
                    0,
                ),
            decreases self.octaves - x,
        {
            let s: i64 = self.sources[x].get([px, py, pz, pw]);
            proof {
                let src = self.sources@[x as int];
                lemma_perlin4_bound(
                    src.perm_table.values@,
                    src.enable_period,
                    src.period as int,
                    px as int,
                    py as int,
                    pz as int,
                    pw as int,
                );
            }
            let a: i64 = if s < 0 {
                -s
            } else {
                s
            };
            let folded: i64 = 65536 - a;
            let sharp: i64 = fx_mul(folded, folded);
            let signal: i64 = fx_mul(sharp, weight);
            weight = fx_clamp01(fx_mul(signal, self.gain));
            result = fx_add(result, fx_mul(signal, powp));
            powp = fx_mul(powp, self.persistence);
            px = fx_mul(px, self.lacunarity);
            py = fx_mul(py, self.lacunarity);
            pz = fx_mul(pz, self.lacunarity);
            pw = fx_mul(pw, self.lacunarity);
            x = x + 1;
        }
        fx_add(fx_mul(result, FX_THIRD), -65536)
    }
}

/// The per-octave weight fed forward to the next octave, after clipping,
/// always lies in `[0, 1]`: the feedback cannot make the sum diverge.
pub proof fn lemma_octave_weight_bounded(signal: int, gain: int)
    ensures
        0 <= clamp01_spec(fx_mul_spec(signal, gain)) <= 65536,
{
}

/// With a single octave and frequency, persistence and weight-neutral
/// parameters, the combinator's value is exactly the single-octave formula
/// applied to that octave's base kernel: absent later octaves contribute
/// nothing.
pub proof fn lemma_ridged2_single_octave(m: RidgedMulti, px: int, py: int)
    requires
        m.well_formed(),
        m.octaves == 1,
        m.frequency == 65536,
        m.persistence == 65536,
        i64::MIN as int <= px <= i64::MAX as int,
        i64::MIN as int <= py <= i64::MAX as int,
    ensures
        ridged2_of(m, px, py) == ({
            let s = perlin2_of(m.sources@[0], px, py);
            let folded = 65536 - abs_int(s);
            let sharp = fx_mul_spec(folded, folded);
            fx_add_spec(fx_mul_spec(sharp, FX_THIRD as int), -65536)
        }),
{
    reveal_with_fuel(ridged_rec2, 3);
    lemma_fx_mul_one(px);
    lemma_fx_mul_one(py);
    let s = perlin2_of(m.sources@[0], px, py);
    lemma_perlin2_bound(
        m.sources@[0].perm_table.values@,
        m.sources@[0].enable_period,
        m.sources@[0].period as int,
        px,
        py,
    );
    let folded = 65536 - abs_int(s);
    let sharp = fx_mul_spec(folded, folded);
    lemma_fx_mul_one(sharp);
    crate::fixed::lemma_fx_mul_in_i64(folded, folded);
    assert(fx_mul_spec(sharp, 65536) == sharp);
    assert(fx_add_spec(0, sharp) == sharp) by {
        crate::fixed::lemma_fx_mul_in_i64(sharp, 0);
    }
}

/// Octave-by-octave tiling: if every remaining source wraps at `k` scaled
/// by the doubling point schedule, shifting the point by any whole
/// multiples of `k` units leaves the rest of the evaluation unchanged.
#[verifier::rlimit(100)]
#[verifier::spinoff_prover]
proof fn lemma_ridged_rec2_tiling(
    srcs: Seq<Perlin>,
    pers: int,
    gain: int,
    i: nat,
    px: int,
    py: int,
    w: int,
    powp: int,
    acc: int,
    k: int,
    ax: int,
    ay: int,
)
    requires
        i <= srcs.len(),
        1 <= k,
        forall|j: int| i <= j < srcs.len() ==> (#[trigger] srcs[j].enable_period) && srcs[j].period
            as int == k * pow2((j - i) as nat),
        k * pow2((srcs.len() - i) as nat) <= 0x4000_0000,
        (abs_int(px) + abs_int(py) + (abs_int(ax) + abs_int(ay)) * k * 65536) * pow2(
            (srcs.len() - i) as nat,
        ) <= i64::MAX as int,
    ensures
        ridged_rec2(
            srcs,
            131072,
            pers,
            gain,
            i,
            px + ax * k * 65536,
            py + ay * k * 65536,
            w,
            powp,
            acc,
        ) == ridged_rec2(srcs, 131072, pers, gain, i, px, py, w, powp, acc),
    decreases srcs.len() - i,
{
    if i < srcs.len() {
        let len = srcs.len();
        let amount = abs_int(px) + abs_int(py) + (abs_int(ax) + abs_int(ay)) * k * 65536;
        let rest = pow2((len - i) as nat);
        let rest1 = pow2((len - i - 1) as nat);
        assert(rest == 2 * rest1) by {
            vstd::arithmetic::power2::lemma_pow2_unfold((len - i) as nat);
        }
        vstd::arithmetic::power2::lemma_pow2_pos((len - i - 1) as nat);
        assert(0 <= (abs_int(ax) + abs_int(ay)) * k * 65536) by (nonlinear_arith)
            requires
                1 <= k,
                0 <= abs_int(ax) + abs_int(ay),
        ;
        assert(2 * amount <= amount * rest) by (nonlinear_arith)
            requires
                0 <= amount,
                2 <= rest,
                amount * rest <= i64::MAX as int,
        ;
        assert(abs_int(ax * k * 65536) == abs_int(ax) * k * 65536 && abs_int(ay * k * 65536)
            == abs_int(ay) * k * 65536 && (abs_int(ax) + abs_int(ay)) * k * 65536 == abs_int(ax)
            * k * 65536 + abs_int(ay) * k * 65536) by (nonlinear_arith)
            requires
                1 <= k,
        ;
        // The current octave's source wraps at exactly k.
        assert(pow2(0) == 1) by {
            vstd::arithmetic::power2::lemma2_to64();
        }
        assert(srcs[i as int].enable_period);
        assert(srcs[i as int].period as int == k * pow2(0));
        assert(srcs[i as int].period as int == k);
        lemma_perlin2_periodic_tiling(srcs[i as int].perm_table.values@, k, px, py, ax, ay);
        // The point doubles on both sides of the equation.
        crate::fixed::lemma_fx_mul_double(px);
        crate::fixed::lemma_fx_mul_double(py);
        crate::fixed::lemma_fx_mul_double(px + ax * k * 65536);
        crate::fixed::lemma_fx_mul_double(py + ay * k * 65536);
        let s = perlin2_of(srcs[i as int], px, py);
        let folded = 65536 - abs_int(s);
        let sharp = fx_mul_spec(folded, folded);
        let signal = fx_mul_spec(sharp, w);
        let w2 = clamp01_spec(fx_mul_spec(signal, gain));
        let powp2 = fx_mul_spec(powp, pers);
        let acc2 = fx_add_spec(acc, fx_mul_spec(signal, powp));
        // The remaining octaves see a doubled point and a doubled wrap.
        assert forall|j: int| i + 1 <= j < len implies (#[trigger] srcs[j].enable_period) && srcs[
            j
        ].period as int == (2 * k) * pow2((j - i - 1) as nat) by {
            assert(srcs[j].enable_period);
            assert(srcs[j].period as int == k * pow2((j - i) as nat));
            let pj = pow2((j - i - 1) as nat);
            assert(pow2((j - i) as nat) == 2 * pj) by {
                vstd::arithmetic::power2::lemma_pow2_unfold((j - i) as nat);
            }
            assert(k * (2 * pj) == (2 * k) * pj) by (nonlinear_arith);
        }
        assert((2 * k) * rest1 == k * rest) by (nonlinear_arith)
            requires
                rest == 2 * rest1,
        ;
        assert((abs_int(2 * px) + abs_int(2 * py) + (abs_int(ax) + abs_int(ay)) * (2 * k) * 65536)
            * rest1 == amount * rest) by (nonlinear_arith)
            requires
                rest == 2 * rest1,
                amount == abs_int(px) + abs_int(py) + (abs_int(ax) + abs_int(ay)) * k * 65536,
                abs_int(2 * px) == 2 * abs_int(px),
                abs_int(2 * py) == 2 * abs_int(py),
        ;
        lemma_ridged_rec2_tiling(
            srcs,
            pers,
            gain,
            i + 1,
            2 * px,
            2 * py,
            w2,
            powp2,
            acc2,
            2 * k,
            ax,
            ay,
        );
        assert(2 * (px + ax * k * 65536) == 2 * px + ax * (2 * k) * 65536) by (nonlinear_arith);
        assert(2 * (py + ay * k * 65536) == 2 * py + ay * (2 * k) * 65536) by (nonlinear_arith);
    }
}

/// Periodic tiling for the combinator: with wrap-around active, unit
/// frequency and a doubling lacunarity, shifting any axis by any whole
/// multiple of the period leaves the 2-dimensional value unchanged, as
/// long as neither the period schedule nor the scaled point overflows
/// across the octaves.  With other frequencies the sources sample points
/// that are not shifted by whole periods, and the value may change.
pub proof fn lemma_ridged2_periodic_tiling(m: RidgedMulti, px: int, py: int, ax: int, ay: int)
    requires
        m.well_formed(),
        m.enable_period,
        m.frequency == 65536,
        m.lacunarity == 131072,
        1 <= m.period,
        (m.period as int) * pow2(m.octaves as nat) <= 0x4000_0000,
        (abs_int(px) + abs_int(py) + (abs_int(ax) + abs_int(ay)) * (m.period as int) * 65536)
            * pow2(m.octaves as nat) <= i64::MAX as int,
    ensures
        ridged2_of(m, px + ax * (m.period as int) * 65536, py + ay * (m.period as int) * 65536)
            == ridged2_of(m, px, py),
{
    let k = m.period as int;
    let n = m.octaves as nat;
    let amount = abs_int(px) + abs_int(py) + (abs_int(ax) + abs_int(ay)) * k * 65536;
    vstd::arithmetic::power2::lemma_pow2_pos(n);
    assert(0 <= (abs_int(ax) + abs_int(ay)) * k * 65536) by (nonlinear_arith)
        requires
            1 <= k,
            0 <= abs_int(ax) + abs_int(ay),
    ;
    assert(amount <= amount * pow2(n)) by (nonlinear_arith)
        requires
            0 <= amount,
            1 <= pow2(n),
    ;
    assert(abs_int(ax * k * 65536) == abs_int(ax) * k * 65536 && abs_int(ay * k * 65536)
        == abs_int(ay) * k * 65536 && (abs_int(ax) + abs_int(ay)) * k * 65536 == abs_int(ax) * k
        * 65536 + abs_int(ay) * k * 65536) by (nonlinear_arith)
        requires
            1 <= k,
    ;
    lemma_fx_mul_one(px);
    lemma_fx_mul_one(py);
    lemma_fx_mul_one(px + ax * k * 65536);
    lemma_fx_mul_one(py + ay * k * 65536);
    assert forall|j: int| 0 <= j < m.octaves implies (#[trigger] m.sources@[j].enable_period)
        && m.sources@[j].period as int == k * pow2(j as nat) by {
        assert(source_ok_periodic(m.sources@[j], m.seed, j, k, 131072));
        assert(pow2(j as nat) <= pow2(n)) by {
            if j < m.octaves {
                if (j as nat) < n {
                    vstd::arithmetic::power2::lemma_pow2_strictly_increases(j as nat, n);
                }
            }
        }
        assert(k * pow2(j as nat) <= k * pow2(n)) by (nonlinear_arith)
            requires
                1 <= k,
                pow2(j as nat) <= pow2(n),
        ;
        crate::fractals::lemma_period_at_doubling(k, j as nat);
    }
    lemma_ridged_rec2_tiling(m.sources@, m.persistence as int, m.gain as int, 0, px, py, 65536,
        65536, 0, k, ax, ay);
}

/// Octave-by-octave tiling over 3-dimensional points.
#[verifier::rlimit(100)]
#[verifier::spinoff_prover]
proof fn lemma_ridged_rec3_tiling(
    srcs: Seq<Perlin>,
    pers: int,
    gain: int,
    i: nat,
    px: int,
    py: int,
    pz: int,
    ax: int,
    ay: int,
    az: int,
    w: int,
    powp: int,
    acc: int,
    k: int,
)
    requires
        i <= srcs.len(),
        1 <= k,
        forall|j: int| i <= j < srcs.len() ==> (#[trigger] srcs[j].enable_period) && srcs[j].period
            as int == k * pow2((j - i) as nat),
        k * pow2((srcs.len() - i) as nat) <= 0x4000_0000,
        (abs_int(px) + abs_int(py) + abs_int(pz) + (abs_int(ax) + abs_int(ay) + abs_int(az)) * k * 65536) * pow2((srcs.len() - i) as nat) <= i64::MAX as int,
    ensures
        ridged_rec3(
            srcs,
            131072,
            pers,
            gain,
            i,
            px + ax * k * 65536,
            py + ay * k * 65536,
            pz + az * k * 65536,
            w,
            powp,
            acc,
        ) == ridged_rec3(srcs, 131072, pers, gain, i, px, py, pz, w, powp, acc),
    decreases srcs.len() - i,
{
    if i < srcs.len() {
        let len = srcs.len();
        let amount = abs_int(px) + abs_int(py) + abs_int(pz) + (abs_int(ax) + abs_int(ay) + abs_int(az)) * k * 65536;
        let rest = pow2((len - i) as nat);
        let rest1 = pow2((len - i - 1) as nat);
        assert(rest == 2 * rest1) by {
            vstd::arithmetic::power2::lemma_pow2_unfold((len - i) as nat);
        }
        vstd::arithmetic::power2::lemma_pow2_pos((len - i - 1) as nat);
        assert(0 <= (abs_int(ax) + abs_int(ay) + abs_int(az)) * k * 65536) by (nonlinear_arith)
            requires
                1 <= k,
                0 <= abs_int(ax) + abs_int(ay) + abs_int(az),
        ;
        assert(2 * amount <= amount * rest) by (nonlinear_arith)
            requires
                0 <= amount,
                2 <= rest,
                amount * rest <= i64::MAX as int,
        ;
        assert(abs_int(ax * k * 65536) == abs_int(ax) * k * 65536 && abs_int(ay * k * 65536) == abs_int(ay) * k * 65536 && abs_int(az * k * 65536) == abs_int(az) * k * 65536 && (abs_int(ax) + abs_int(ay) + abs_int(az)) * k * 65536 == abs_int(ax) * k * 65536 + abs_int(ay) * k * 65536 + abs_int(az) * k * 65536) by (nonlinear_arith)
            requires
                1 <= k,
        ;
        assert(pow2(0) == 1) by {
            vstd::arithmetic::power2::lemma2_to64();
        }
        assert(srcs[i as int].enable_period);
        assert(srcs[i as int].period as int == k * pow2(0));
        assert(srcs[i as int].period as int == k);
        lemma_perlin3_periodic_tiling(srcs[i as int].perm_table.values@, k, px, py, pz, ax, ay, az);
        crate::fixed::lemma_fx_mul_double(px);
        crate::fixed::lemma_fx_mul_double(py);
        crate::fixed::lemma_fx_mul_double(pz);
        crate::fixed::lemma_fx_mul_double(px + ax * k * 65536);
        crate::fixed::lemma_fx_mul_double(py + ay * k * 65536);
        crate::fixed::lemma_fx_mul_double(pz + az * k * 65536);
        let s = perlin3_of(srcs[i as int], px, py, pz);
        let folded = 65536 - abs_int(s);
        let sharp = fx_mul_spec(folded, folded);
        let signal = fx_mul_spec(sharp, w);
        let w2 = clamp01_spec(fx_mul_spec(signal, gain));
        let powp2 = fx_mul_spec(powp, pers);
        let acc2 = fx_add_spec(acc, fx_mul_spec(signal, powp));
        assert forall|j: int| i + 1 <= j < len implies (#[trigger] srcs[j].enable_period) && srcs[
            j
        ].period as int == (2 * k) * pow2((j - i - 1) as nat) by {
            assert(srcs[j].enable_period);
            assert(srcs[j].period as int == k * pow2((j - i) as nat));
            let pj = pow2((j - i - 1) as nat);
            assert(pow2((j - i) as nat) == 2 * pj) by {
                vstd::arithmetic::power2::lemma_pow2_unfold((j - i) as nat);
            }
            assert(k * (2 * pj) == (2 * k) * pj) by (nonlinear_arith);
        }
        assert((2 * k) * rest1 == k * rest) by (nonlinear_arith)
            requires
                rest == 2 * rest1,
        ;
        assert((abs_int(2 * px) + abs_int(2 * py) + abs_int(2 * pz) + (abs_int(ax) + abs_int(ay) + abs_int(az)) * (2 * k) * 65536)
            * rest1 == amount * rest) by (nonlinear_arith)
            requires
                rest == 2 * rest1,
                amount == abs_int(px) + abs_int(py) + abs_int(pz) + (abs_int(ax) + abs_int(ay) + abs_int(az)) * k * 65536,
                abs_int(2 * px) == 2 * abs_int(px),
                abs_int(2 * py) == 2 * abs_int(py),
                abs_int(2 * pz) == 2 * abs_int(pz),
        ;
        lemma_ridged_rec3_tiling(
            srcs,
            pers,
            gain,
            i + 1,
            2 * px,
            2 * py,
            2 * pz,
            ax,
            ay,
            az,
            w2,
            powp2,
            acc2,
            2 * k,
        );
        assert(2 * (px + ax * k * 65536) == 2 * px + ax * (2 * k) * 65536) by (nonlinear_arith);
        assert(2 * (py + ay * k * 65536) == 2 * py + ay * (2 * k) * 65536) by (nonlinear_arith);
        assert(2 * (pz + az * k * 65536) == 2 * pz + az * (2 * k) * 65536) by (nonlinear_arith);
    }
}

/// Periodic tiling for the combinator over 3-dimensional points, under
/// the same conditions as the 2-dimensional law.
pub proof fn lemma_ridged3_periodic_tiling(m: RidgedMulti, px: int, py: int, pz: int, ax: int, ay: int, az: int)
    requires
        m.well_formed(),
        m.enable_period,
        m.frequency == 65536,
        m.lacunarity == 131072,
        1 <= m.period,
        (m.period as int) * pow2(m.octaves as nat) <= 0x4000_0000,
        (abs_int(px) + abs_int(py) + abs_int(pz) + (abs_int(ax) + abs_int(ay) + abs_int(az)) * (m.period as int) * 65536) * pow2(m.octaves as nat) <= i64::MAX as int,
    ensures
        ridged3_of(m, px + ax * (m.period as int) * 65536, py + ay * (m.period as int) * 65536, pz + az * (m.period as int) * 65536) == ridged3_of(m, px, py, pz),
{
    let k = m.period as int;
    let n = m.octaves as nat;
    let amount = abs_int(px) + abs_int(py) + abs_int(pz) + (abs_int(ax) + abs_int(ay) + abs_int(az)) * k * 65536;
    vstd::arithmetic::power2::lemma_pow2_pos(n);
    assert(0 <= (abs_int(ax) + abs_int(ay) + abs_int(az)) * k * 65536) by (nonlinear_arith)
        requires
            1 <= k,
            0 <= abs_int(ax) + abs_int(ay) + abs_int(az),
    ;
    assert(amount <= amount * pow2(n)) by (nonlinear_arith)
        requires
            0 <= amount,
            1 <= pow2(n),
    ;
    assert(abs_int(ax * k * 65536) == abs_int(ax) * k * 65536 && abs_int(ay * k * 65536) == abs_int(ay) * k * 65536 && abs_int(az * k * 65536) == abs_int(az) * k * 65536 && (abs_int(ax) + abs_int(ay) + abs_int(az)) * k * 65536 == abs_int(ax) * k * 65536 + abs_int(ay) * k * 65536 + abs_int(az) * k * 65536) by (nonlinear_arith)
        requires
            1 <= k,
    ;
    lemma_fx_mul_one(px);
    lemma_fx_mul_one(py);
    lemma_fx_mul_one(pz);
    lemma_fx_mul_one(px + ax * k * 65536);
    lemma_fx_mul_one(py + ay * k * 65536);
    lemma_fx_mul_one(pz + az * k * 65536);
    assert forall|j: int| 0 <= j < m.octaves implies (#[trigger] m.sources@[j].enable_period)
        && m.sources@[j].period as int == k * pow2(j as nat) by {
        assert(source_ok_periodic(m.sources@[j], m.seed, j, k, 131072));
        assert(pow2(j as nat) <= pow2(n)) by {
            if (j as nat) < n {
                vstd::arithmetic::power2::lemma_pow2_strictly_increases(j as nat, n);
            }
        }
        assert(k * pow2(j as nat) <= k * pow2(n)) by (nonlinear_arith)
            requires
                1 <= k,
                pow2(j as nat) <= pow2(n),
        ;
        crate::fractals::lemma_period_at_doubling(k, j as nat);
    }
    lemma_ridged_rec3_tiling(m.sources@, m.persistence as int, m.gain as int, 0, px, py, pz, ax,
        ay, az, 65536, 65536, 0, k);
}

/// Octave-by-octave tiling over 4-dimensional points.
#[verifier::rlimit(100)]
#[verifier::spinoff_prover]
proof fn lemma_ridged_rec4_tiling(
    srcs: Seq<Perlin>,
    pers: int,
    gain: int,
    i: nat,
    px: int,
    py: int,
    pz: int,
    pw: int,
    ax: int,
    ay: int,
    az: int,
    aw: int,
    w: int,
    powp: int,
    acc: int,
    k: int,
)
    requires
        i <= srcs.len(),
        1 <= k,
        forall|j: int| i <= j < srcs.len() ==> (#[trigger] srcs[j].enable_period) && srcs[j].period
            as int == k * pow2((j - i) as nat),
        k * pow2((srcs.len() - i) as nat) <= 0x4000_0000,
        (abs_int(px) + abs_int(py) + abs_int(pz) + abs_int(pw) + (abs_int(ax) + abs_int(ay) + abs_int(az) + abs_int(aw)) * k * 65536) * pow2((srcs.len() - i) as nat) <= i64::MAX as int,
    ensures
        ridged_rec4(
            srcs,
            131072,
            pers,
            gain,
            i,
            px + ax * k * 65536,
            py + ay * k * 65536,
            pz + az * k * 65536,
            pw + aw * k * 65536,
            w,
            powp,
            acc,
        ) == ridged_rec4(srcs, 131072, pers, gain, i, px, py, pz, pw, w, powp, acc),
    decreases srcs.len() - i,
{
    if i < srcs.len() {
        let len = srcs.len();
        let amount = abs_int(px) + abs_int(py) + abs_int(pz) + abs_int(pw) + (abs_int(ax) + abs_int(ay) + abs_int(az) + abs_int(aw)) * k * 65536;
        let rest = pow2((len - i) as nat);
        let rest1 = pow2((len - i - 1) as nat);
        assert(rest == 2 * rest1) by {
            vstd::arithmetic::power2::lemma_pow2_unfold((len - i) as nat);
        }
        vstd::arithmetic::power2::lemma_pow2_pos((len - i - 1) as nat);
        assert(0 <= (abs_int(ax) + abs_int(ay) + abs_int(az) + abs_int(aw)) * k * 65536) by (nonlinear_arith)
            requires
                1 <= k,
                0 <= abs_int(ax) + abs_int(ay) + abs_int(az) + abs_int(aw),
        ;
        assert(2 * amount <= amount * rest) by (nonlinear_arith)
            requires
                0 <= amount,
                2 <= rest,
                amount * rest <= i64::MAX as int,
        ;
        assert(abs_int(ax * k * 65536) == abs_int(ax) * k * 65536 && abs_int(ay * k * 65536) == abs_int(ay) * k * 65536 && abs_int(az * k * 65536) == abs_int(az) * k * 65536 && abs_int(aw * k * 65536) == abs_int(aw) * k * 65536 && (abs_int(ax) + abs_int(ay) + abs_int(az) + abs_int(aw)) * k * 65536 == abs_int(ax) * k * 65536 + abs_int(ay) * k * 65536 + abs_int(az) * k * 65536 + abs_int(aw) * k * 65536) by (nonlinear_arith)
            requires
                1 <= k,
        ;
        assert(pow2(0) == 1) by {
            vstd::arithmetic::power2::lemma2_to64();
        }
        assert(srcs[i as int].enable_period);
        assert(srcs[i as int].period as int == k * pow2(0));
        assert(srcs[i as int].period as int == k);
        lemma_perlin4_periodic_tiling(srcs[i as int].perm_table.values@, k, px, py, pz, pw, ax, ay, az, aw);
        crate::fixed::lemma_fx_mul_double(px);
        crate::fixed::lemma_fx_mul_double(py);
        crate::fixed::lemma_fx_mul_double(pz);
        crate::fixed::lemma_fx_mul_double(pw);
        crate::fixed::lemma_fx_mul_double(px + ax * k * 65536);
        crate::fixed::lemma_fx_mul_double(py + ay * k * 65536);
        crate::fixed::lemma_fx_mul_double(pz + az * k * 65536);
        crate::fixed::lemma_fx_mul_double(pw + aw * k * 65536);
        let s = perlin4_of(srcs[i as int], px, py, pz, pw);
        let folded = 65536 - abs_int(s);
        let sharp = fx_mul_spec(folded, folded);
        let signal = fx_mul_spec(sharp, w);
        let w2 = clamp01_spec(fx_mul_spec(signal, gain));
        let powp2 = fx_mul_spec(powp, pers);
        let acc2 = fx_add_spec(acc, fx_mul_spec(signal, powp));
        assert forall|j: int| i + 1 <= j < len implies (#[trigger] srcs[j].enable_period) && srcs[
            j
        ].period as int == (2 * k) * pow2((j - i - 1) as nat) by {
            assert(srcs[j].enable_period);
            assert(srcs[j].period as int == k * pow2((j - i) as nat));
            let pj = pow2((j - i - 1) as nat);
            assert(pow2((j - i) as nat) == 2 * pj) by {
                vstd::arithmetic::power2::lemma_pow2_unfold((j - i) as nat);
            }
            assert(k * (2 * pj) == (2 * k) * pj) by (nonlinear_arith);
        }
        assert((2 * k) * rest1 == k * rest) by (nonlinear_arith)
            requires
                rest == 2 * rest1,
        ;
        assert((abs_int(2 * px) + abs_int(2 * py) + abs_int(2 * pz) + abs_int(2 * pw) + (abs_int(ax) + abs_int(ay) + abs_int(az) + abs_int(aw)) * (2 * k) * 65536)
            * rest1 == amount * rest) by (nonlinear_arith)
            requires
                rest == 2 * rest1,
                amount == abs_int(px) + abs_int(py) + abs_int(pz) + abs_int(pw) + (abs_int(ax) + abs_int(ay) + abs_int(az) + abs_int(aw)) * k * 65536,
                abs_int(2 * px) == 2 * abs_int(px),
                abs_int(2 * py) == 2 * abs_int(py),
                abs_int(2 * pz) == 2 * abs_int(pz),
                abs_int(2 * pw) == 2 * abs_int(pw),
        ;
        lemma_ridged_rec4_tiling(
            srcs,
            pers,
            gain,
            i + 1,
            2 * px,
            2 * py,
            2 * pz,
            2 * pw,
            ax,
            ay,
            az,
            aw,
            w2,
            powp2,
            acc2,
            2 * k,
        );
        assert(2 * (px + ax * k * 65536) == 2 * px + ax * (2 * k) * 65536) by (nonlinear_arith);
        assert(2 * (py + ay * k * 65536) == 2 * py + ay * (2 * k) * 65536) by (nonlinear_arith);
        assert(2 * (pz + az * k * 65536) == 2 * pz + az * (2 * k) * 65536) by (nonlinear_arith);
        assert(2 * (pw + aw * k * 65536) == 2 * pw + aw * (2 * k) * 65536) by (nonlinear_arith);
    }
}

/// Periodic tiling for the combinator over 4-dimensional points, under
/// the same conditions as the 2-dimensional law.
pub proof fn lemma_ridged4_periodic_tiling(m: RidgedMulti, px: int, py: int, pz: int, pw: int, ax: int, ay: int, az: int, aw: int)
    requires
        m.well_formed(),
        m.enable_period,
        m.frequency == 65536,
        m.lacunarity == 131072,
        1 <= m.period,
        (m.period as int) * pow2(m.octaves as nat) <= 0x4000_0000,
        (abs_int(px) + abs_int(py) + abs_int(pz) + abs_int(pw) + (abs_int(ax) + abs_int(ay) + abs_int(az) + abs_int(aw)) * (m.period as int) * 65536) * pow2(m.octaves as nat) <= i64::MAX as int,
    ensures
        ridged4_of(m, px + ax * (m.period as int) * 65536, py + ay * (m.period as int) * 65536, pz + az * (m.period as int) * 65536, pw + aw * (m.period as int) * 65536) == ridged4_of(m, px, py, pz, pw),
{
    let k = m.period as int;
    let n = m.octaves as nat;
    let amount = abs_int(px) + abs_int(py) + abs_int(pz) + abs_int(pw) + (abs_int(ax) + abs_int(ay) + abs_int(az) + abs_int(aw)) * k * 65536;
    vstd::arithmetic::power2::lemma_pow2_pos(n);
    assert(0 <= (abs_int(ax) + abs_int(ay) + abs_int(az) + abs_int(aw)) * k * 65536) by (nonlinear_arith)
        requires
            1 <= k,
            0 <= abs_int(ax) + abs_int(ay) + abs_int(az) + abs_int(aw),
    ;
    assert(amount <= amount * pow2(n)) by (nonlinear_arith)
        requires
            0 <= amount,
            1 <= pow2(n),
    ;
    assert(abs_int(ax * k * 65536) == abs_int(ax) * k * 65536 && abs_int(ay * k * 65536) == abs_int(ay) * k * 65536 && abs_int(az * k * 65536) == abs_int(az) * k * 65536 && abs_int(aw * k * 65536) == abs_int(aw) * k * 65536 && (abs_int(ax) + abs_int(ay) + abs_int(az) + abs_int(aw)) * k * 65536 == abs_int(ax) * k * 65536 + abs_int(ay) * k * 65536 + abs_int(az) * k * 65536 + abs_int(aw) * k * 65536) by (nonlinear_arith)
        requires
            1 <= k,
    ;
    lemma_fx_mul_one(px);
    lemma_fx_mul_one(py);
    lemma_fx_mul_one(pz);
    lemma_fx_mul_one(pw);
    lemma_fx_mul_one(px + ax * k * 65536);
    lemma_fx_mul_one(py + ay * k * 65536);
    lemma_fx_mul_one(pz + az * k * 65536);
    lemma_fx_mul_one(pw + aw * k * 65536);
    assert forall|j: int| 0 <= j < m.octaves implies (#[trigger] m.sources@[j].enable_period)
        && m.sources@[j].period as int == k * pow2(j as nat) by {
        assert(source_ok_periodic(m.sources@[j], m.seed, j, k, 131072));
        assert(pow2(j as nat) <= pow2(n)) by {
            if (j as nat) < n {
                vstd::arithmetic::power2::lemma_pow2_strictly_increases(j as nat, n);
            }
        }
        assert(k * pow2(j as nat) <= k * pow2(n)) by (nonlinear_arith)
            requires
                1 <= k,
                pow2(j as nat) <= pow2(n),
        ;
        crate::fractals::lemma_period_at_doubling(k, j as nat);
    }
    lemma_ridged_rec4_tiling(m.sources@, m.persistence as int, m.gain as int, 0, px, py, pz, pw,
        ax, ay, az, aw, 65536, 65536, 0, k);
}

/// The single-octave law over 3-dimensional points.
pub proof fn lemma_ridged3_single_octave(m: RidgedMulti, px: int, py: int, pz: int)
    requires
        m.well_formed(),
        m.octaves == 1,
        m.frequency == 65536,
        m.persistence == 65536,
        i64::MIN as int <= px <= i64::MAX as int,
        i64::MIN as int <= py <= i64::MAX as int,
        i64::MIN as int <= pz <= i64::MAX as int,
    ensures
        ridged3_of(m, px, py, pz) == ({
            let s = perlin3_of(m.sources@[0], px, py, pz);
            let folded = 65536 - abs_int(s);
            let sharp = fx_mul_spec(folded, folded);
            fx_add_spec(fx_mul_spec(sharp, FX_THIRD as int), -65536)
        }),
{
    reveal_with_fuel(ridged_rec3, 3);
    lemma_fx_mul_one(px);
    lemma_fx_mul_one(py);
    lemma_fx_mul_one(pz);
    let s = perlin3_of(m.sources@[0], px, py, pz);
    lemma_perlin3_bound(
        m.sources@[0].perm_table.values@,
        m.sources@[0].enable_period,
        m.sources@[0].period as int,
        px,
        py,
        pz,
    );
    let folded = 65536 - abs_int(s);
    let sharp = fx_mul_spec(folded, folded);
    lemma_fx_mul_one(sharp);
    crate::fixed::lemma_fx_mul_in_i64(folded, folded);
    assert(fx_mul_spec(sharp, 65536) == sharp);
    assert(fx_add_spec(0, sharp) == sharp) by {
        crate::fixed::lemma_fx_mul_in_i64(sharp, 0);
    }
}

/// The single-octave law over 4-dimensional points.
pub proof fn lemma_ridged4_single_octave(m: RidgedMulti, px: int, py: int, pz: int, pw: int)
    requires
        m.well_formed(),
        m.octaves == 1,
        m.frequency == 65536,
        m.persistence == 65536,
        i64::MIN as int <= px <= i64::MAX as int,
        i64::MIN as int <= py <= i64::MAX as int,
        i64::MIN as int <= pz <= i64::MAX as int,
        i64::MIN as int <= pw <= i64::MAX as int,
    ensures
        ridged4_of(m, px, py, pz, pw) == ({
            let s = perlin4_of(m.sources@[0], px, py, pz, pw);
            let folded = 65536 - abs_int(s);
            let sharp = fx_mul_spec(folded, folded);
            fx_add_spec(fx_mul_spec(sharp, FX_THIRD as int), -65536)
        }),
{
    reveal_with_fuel(ridged_rec4, 3);
    lemma_fx_mul_one(px);
    lemma_fx_mul_one(py);
    lemma_fx_mul_one(pz);
    lemma_fx_mul_one(pw);
    let s = perlin4_of(m.sources@[0], px, py, pz, pw);
    lemma_perlin4_bound(
        m.sources@[0].perm_table.values@,
        m.sources@[0].enable_period,
        m.sources@[0].period as int,
        px,
        py,
        pz,
        pw,
    );
    let folded = 65536 - abs_int(s);
    let sharp = fx_mul_spec(folded, folded);
    lemma_fx_mul_one(sharp);
    crate::fixed::lemma_fx_mul_in_i64(folded, folded);
    assert(fx_mul_spec(sharp, 65536) == sharp);
    assert(fx_add_spec(0, sharp) == sharp) by {
        crate::fixed::lemma_fx_mul_in_i64(sharp, 0);
    }
}

} // verus!
