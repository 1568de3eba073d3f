//! Domain warping ("turbulence"): perturbs the input point with auxiliary
//! noise before delegating to the wrapped source module.
//!
//! One auxiliary kernel per coordinate axis is sampled at the (frequency-
//! scaled) input point; the displacements, scaled by the power factor, are
//! added to the point's coordinates, and the source is evaluated at the
//! displaced point.  Like the fractal combinators, the auxiliary kernels
//! can be made periodic so the warp tiles with the primary field.

use vstd::prelude::*;
use crate::fixed::{fx_add, fx_add_spec, fx_mul, fx_mul_spec};
use crate::fractals::wrap_add;
use crate::perlin::{clamp_period, perlin2_of, perlin3_of, perlin4_of, Perlin};
use crate::NoiseModule;

verus! {

/// Default seed for the Turbulence noise module.
pub const DEFAULT_TURBULENCE_SEED: usize = 0;

/// Default frequency for the auxiliary noise: one unit.
pub const DEFAULT_TURBULENCE_FREQUENCY: i64 = 65536;

/// Default power (displacement strength): one unit.
pub const DEFAULT_TURBULENCE_POWER: i64 = 65536;

/// Noise module that displaces the input point with auxiliary noise
/// before delegating to the source module.
pub struct Turbulence<Source> {
    /// The module evaluated at the displaced point.
    pub source: Source,
    /// Seed for the auxiliary kernels; axis `k` is seeded `seed + k`.
    pub seed: usize,
    /// Frequency at which the auxiliary kernels sample the input point.
    pub frequency: i64,
    /// Scale applied to each axis displacement.
    pub power: i64,
    /// The auxiliary kernel displacing the first axis.
    pub x_distort: Perlin,
    /// The auxiliary kernel displacing the second axis.
    pub y_distort: Perlin,
    /// The auxiliary kernel displacing the third axis.
    pub z_distort: Perlin,
    /// The auxiliary kernel displacing the fourth axis.
    pub w_distort: Perlin,
}

impl<Source> Turbulence<Source> {
    /// The auxiliary kernels are well formed, as is the source.
    pub open spec fn distorters_wf(&self) -> bool {
        &&& self.x_distort.well_formed()
        &&& self.y_distort.well_formed()
        &&& self.z_distort.well_formed()
        &&& self.w_distort.well_formed()
    }

    /// Wraps a source module with default-seeded auxiliary kernels.
    pub fn new(source: Source) -> (r: Turbulence<Source>)
        ensures
            r.source == source,
            r.seed == DEFAULT_TURBULENCE_SEED,
            r.frequency == DEFAULT_TURBULENCE_FREQUENCY,
            r.power == DEFAULT_TURBULENCE_POWER,
            r.distorters_wf(),
            !r.x_distort.enable_period,
            !r.y_distort.enable_period,
            !r.z_distort.enable_period,
            !r.w_distort.enable_period,
    {
        Turbulence {
            source,
            seed: DEFAULT_TURBULENCE_SEED,
            frequency: DEFAULT_TURBULENCE_FREQUENCY,
            power: DEFAULT_TURBULENCE_POWER,
            x_distort: Perlin::new().set_seed(0),
            y_distort: Perlin::new().set_seed(1),
            z_distort: Perlin::new().set_seed(2),
            w_distort: Perlin::new().set_seed(3),
        }
    }

    /// A copy with the auxiliary kernels reseeded: axis `k` gets
    /// `seed + k`.
    pub fn set_seed(self, seed: usize) -> (r: Turbulence<Source>)
        requires
            self.distorters_wf(),
        ensures
            r.seed == seed,
            r.source == self.source,
            r.frequency == self.frequency,
            r.power == self.power,
            r.distorters_wf(),
            r.x_distort.enable_period == self.x_distort.enable_period,
            r.x_distort.period == self.x_distort.period,
    {
        Turbulence {
            seed,
            x_distort: self.x_distort.set_seed(seed),
            y_distort: self.y_distort.set_seed(wrap_add(seed, 1)),
            z_distort: self.z_distort.set_seed(wrap_add(seed, 2)),
            w_distort: self.w_distort.set_seed(wrap_add(seed, 3)),
            ..self
        }
    }

    /// A copy with the given auxiliary-sampling frequency.
    pub fn set_frequency(self, frequency: i64) -> (r: Turbulence<Source>)
        ensures
            r.frequency == frequency,
            r.source == self.source,
            r.seed == self.seed,
            r.power == self.power,
            r.x_distort == self.x_distort,
            r.y_distort == self.y_distort,
            r.z_distort == self.z_distort,
            r.w_distort == self.w_distort,
    {
        Turbulence { frequency, ..self }
    }

    /// A copy with the given displacement strength.
    pub fn set_power(self, power: i64) -> (r: Turbulence<Source>)
        ensures
            r.power == power,
            r.source == self.source,
            r.seed == self.seed,
            r.frequency == self.frequency,
            r.x_distort == self.x_distort,
            r.y_distort == self.y_distort,
            r.z_distort == self.z_distort,
            r.w_distort == self.w_distort,
    {
        Turbulence { power, ..self }
    }

    /// A copy whose auxiliary kernels wrap at the given period (clipped
    /// into the accepted range), for use over a periodic source.
    pub fn set_period(self, period: usize) -> (r: Turbulence<Source>)
        requires
            self.distorters_wf(),
        ensures
            r.source == self.source,
            r.seed == self.seed,
            r.frequency == self.frequency,
            r.power == self.power,
            r.distorters_wf(),
            r.x_distort.period as int == clamp_period(period as int),
            r.x_distort.enable_period,
    {
        Turbulence {
            x_distort: self.x_distort.set_period(period),
            y_distort: self.y_distort.set_period(period),
            z_distort: self.z_distort.set_period(period),
            w_distort: self.w_distort.set_period(period),
            ..self
        }
    }
}

/// The displaced coordinate: the input coordinate plus the auxiliary
/// sample scaled by the power.
pub open spec fn warped_spec(coord: int, displacement: int, power: int) -> int {
    fx_add_spec(coord, fx_mul_spec(displacement, power))
}

impl<Source: NoiseModule<[i64; 2]>> NoiseModule<[i64; 2]> for Turbulence<Source> {
    open spec fn wf(&self) -> bool {
        self.source.wf() && self.distorters_wf()
    }

    open spec fn spec_get(&self, point: [i64; 2]) -> int {
        let sx = fx_mul_spec(point[0] as int, self.frequency as int);
        let sy = fx_mul_spec(point[1] as int, self.frequency as int);
        let wx = warped_spec(point[0] as int, perlin2_of(self.x_distort, sx, sy), self.power as int);
        let wy = warped_spec(point[1] as int, perlin2_of(self.y_distort, sx, sy), self.power as int);
        self.source.spec_get([wx as i64, wy as i64])
    }

    fn get(&self, point: [i64; 2]) -> (r: i64) {
        let sx: i64 = fx_mul(point[0], self.frequency);
        let sy: i64 = fx_mul(point[1], self.frequency);
        let dx: i64 = self.x_distort.get([sx, sy]);
        let dy: i64 = self.y_distort.get([sx, sy]);
        let wx: i64 = fx_add(point[0], fx_mul(dx, self.power));
        let wy: i64 = fx_add(point[1], fx_mul(dy, self.power));
        self.source.get([wx, wy])
    }
}

impl<Source: NoiseModule<[i64; 3]>> NoiseModule<[i64; 3]> for Turbulence<Source> {
    open spec fn wf(&self) -> bool {
        self.source.wf() && self.distorters_wf()
    }

    open spec fn spec_get(&self, point: [i64; 3]) -> int {
        let sx = fx_mul_spec(point[0] as int, self.frequency as int);
        let sy = fx_mul_spec(point[1] as int, self.frequency as int);
        let sz = fx_mul_spec(point[2] as int, self.frequency as int);
        let wx = warped_spec(
            point[0] as int,
            perlin3_of(self.x_distort, sx, sy, sz),
            self.power as int,
        );
        let wy = warped_spec(
            point[1] as int,
            perlin3_of(self.y_distort, sx, sy, sz),
            self.power as int,
        );
        let wz = warped_spec(
            point[2] as int,
            perlin3_of(self.z_distort, sx, sy, sz),
            self.power as int,
        );
        self.source.spec_get([wx as i64, wy as i64, wz as i64])
    }

    #[verifier::rlimit(100)]
    #[verifier::spinoff_prover]
    fn get(&self, point: [i64; 3]) -> (r: i64) {
        let sx: i64 = fx_mul(point[0], self.frequency);
        let sy: i64 = fx_mul(point[1], self.frequency);
        let sz: i64 = fx_mul(point[2], self.frequency);
        let dx: i64 = self.x_distort.get([sx, sy, sz]);
        let dy: i64 = self.y_distort.get([sx, sy, sz]);
        let dz: i64 = self.z_distort.get([sx, sy, sz]);
        let wx: i64 = fx_add(point[0], fx_mul(dx, self.power));
        let wy: i64 = fx_add(point[1], fx_mul(dy, self.power));
        let wz: i64 = fx_add(point[2], fx_mul(dz, self.power));
        self.source.get([wx, wy, wz])
    }
}

impl<Source: NoiseModule<[i64; 4]>> NoiseModule<[i64; 4]> for Turbulence<Source> {
    open spec fn wf(&self) -> bool {
        self.source.wf() && self.distorters_wf()
    }

    open spec fn spec_get(&self, point: [i64; 4]) -> int {
        let sx = fx_mul_spec(point[0] as int, self.frequency as int);
        let sy = fx_mul_spec(point[1] as int, self.frequency as int);
        let sz = fx_mul_spec(point[2] as int, self.frequency as int);
        let sw = fx_mul_spec(point[3] as int, self.frequency as int);
        let wx = warped_spec(
            point[0] as int,
            perlin4_of(self.x_distort, sx, sy, sz, sw),
            self.power as int,
        );
        let wy = warped_spec(
            point[1] as int,
            perlin4_of(self.y_distort, sx, sy, sz, sw),
            self.power as int,
        );
        let wz = warped_spec(
            point[2] as int,
            perlin4_of(self.z_distort, sx, sy, sz, sw),
            self.power as int,
        );
        let ww = warped_spec(
            point[3] as int,
            perlin4_of(self.w_distort, sx, sy, sz, sw),
            self.power as int,
        );
        self.source.spec_get([wx as i64, wy as i64, wz as i64, ww as i64])
    }

    #[verifier::rlimit(60)]
    fn get(&self, point: [i64; 4]) -> (r: i64) {
        let sx: i64 = fx_mul(point[0], self.frequency);
        let sy: i64 = fx_mul(point[1], self.frequency);
        let sz: i64 = fx_mul(point[2], self.frequency);
        let sw: i64 = fx_mul(point[3], self.frequency);
        let dx: i64 = self.x_distort.get([sx, sy, sz, sw]);
        let dy: i64 = self.y_distort.get([sx, sy, sz, sw]);
        let dz: i64 = self.z_distort.get([sx, sy, sz, sw]);
        let dw: i64 = self.w_distort.get([sx, sy, sz, sw]);
        let wx: i64 = fx_add(point[0], fx_mul(dx, self.power));
        let wy: i64 = fx_add(point[1], fx_mul(dy, self.power));
        let wz: i64 = fx_add(point[2], fx_mul(dz, self.power));
        let ww: i64 = fx_add(point[3], fx_mul(dw, self.power));
        self.source.get([wx, wy, wz, ww])
    }
}

} // verus!
