//! The base lattice-noise kernel: one octave of Perlin noise over 2-, 3-
//! and 4-dimensional fixed-point points, with optional axis-wise periodic
//! wrap-around.
//!
//! Evaluation finds the lattice cell containing the point, and for each of
//! the cell's corners computes a surflet: a falloff-weighted dot product of
//! the distance to the corner with a gradient selected by hashing the
//! corner through the seeded lookup table.  The falloff is the fourth power
//! of `1 - |distance|^2`, clipped at zero, which vanishes smoothly at cell
//! boundaries.  The summed surflets are scaled by a dimension-dependent
//! normalization constant so the typical output range approximates one
//! unit either side of zero.

use vstd::prelude::*;
use vstd::arithmetic::div_mod::{
    lemma_hoist_over_denominator, lemma_mod_division_less_than_divisor, lemma_mod_multiples_vanish,
};
use crate::fixed::{
    abs_int, emod_i64, fx_mul, fx_mul_spec, fx_split, lemma_fx_mul_bounds, lemma_fx_mul_sq_nonneg,
};
use crate::gradient;
use crate::gradient::{
    grad2_spec, grad3_spec, grad4_spec, lemma_grad2_bounds, lemma_grad3_bounds, lemma_grad4_bounds,
};
use crate::permtable::{hash2_spec, hash3_spec, hash4_spec, spec_build_table, table_wf,
    PermutationTable};

verus! {

/// Default noise seed for the Perlin noise module.
pub const DEFAULT_PERLIN_SEED: usize = 0;

/// Default period for the Perlin noise module.
pub const DEFAULT_PERLIN_PERIOD: usize = 256;

/// Largest accepted period; larger requests are clipped so that wrapped
/// lattice coordinates stay comfortably inside the coordinate range.
pub const MAX_PERIOD: usize = 0x4000_0000;

/// The 2-dimensional normalization constant, scaled by 2^16: the constant
/// is 256/81, derived from the maximum achievable magnitude of the four
/// summed surflets for the 2-dimensional gradient set.
pub const NORM2: i64 = 207126;

/// The 3-dimensional normalization constant (about 3.8899, the largest
/// magnitude the eight summed surflets can reach), scaled by 2^16.
pub const NORM3: i64 = 254938;

/// The 4-dimensional normalization constant (about 4.4244, the largest
/// magnitude the sixteen summed surflets can reach), scaled by 2^16.
pub const NORM4: i64 = 289988;

/// Magnitude bound on every kernel output, any dimension.
pub const KERNEL_BOUND: i64 = 0x200_0000;

/// The low 32 bits of a seed, which select the lookup table.
pub open spec fn low32(seed: usize) -> u32 {
    ((seed as int) % 0x1_0000_0000) as u32
}

/// A requested period, clipped into the accepted range.
pub open spec fn clamp_period(p: int) -> int {
    if p < 1 {
        1
    } else if p > 0x4000_0000 {
        0x4000_0000
    } else {
        p
    }
}

/// A lattice coordinate, wrapped modulo the period when periodic
/// wrap-around is active.
pub open spec fn corner_spec(enable: bool, period: int, c: int) -> int {
    if enable {
        c % period
    } else {
        c
    }
}

/// One corner's contribution to a 2-dimensional sample: the fourth power
/// of the falloff `1 - |d|^2` (zero once the falloff is not positive)
/// times the dot product of the distance with the corner's gradient.
#[verifier::opaque]
pub open spec fn surflet2_spec(t: Seq<u8>, cx: int, cy: int, dx: int, dy: int) -> int {
    let attn = 65536 - (fx_mul_spec(dx, dx) + fx_mul_spec(dy, dy));
    if attn > 0 {
        let g = grad2_spec(hash2_spec(t, cx, cy));
        let attn2 = fx_mul_spec(attn, attn);
        let attn4 = fx_mul_spec(attn2, attn2);
        fx_mul_spec(attn4, fx_mul_spec(dx, g.0) + fx_mul_spec(dy, g.1))
    } else {
        0
    }
}

/// A 2-dimensional sample: the four corner surflets of the cell containing
/// the point, summed and normalized.
pub open spec fn perlin2_spec(t: Seq<u8>, enable: bool, period: int, px: int, py: int) -> int {
    let fx = px / 65536;
    let fy = py / 65536;
    let ndx = px % 65536;
    let ndy = py % 65536;
    let fdx = ndx - 65536;
    let fdy = ndy - 65536;
    let ncx = corner_spec(enable, period, fx);
    let ncy = corner_spec(enable, period, fy);
    let fcx = corner_spec(enable, period, fx + 1);
    let fcy = corner_spec(enable, period, fy + 1);
    let sum = surflet2_spec(t, ncx, ncy, ndx, ndy) + surflet2_spec(t, fcx, ncy, fdx, ndy)
        + surflet2_spec(t, ncx, fcy, ndx, fdy) + surflet2_spec(t, fcx, fcy, fdx, fdy);
    fx_mul_spec(sum, NORM2 as int)
}

/// Every 2-dimensional surflet over unit distances is bounded.
pub proof fn lemma_surflet2_bound(t: Seq<u8>, cx: int, cy: int, dx: int, dy: int)
    requires
        abs_int(dx) <= 65536,
        abs_int(dy) <= 65536,
    ensures
        abs_int(surflet2_spec(t, cx, cy, dx, dy)) <= 0x2_0005,
        0 <= fx_mul_spec(dx, dx) + fx_mul_spec(dy, dy) <= 0x2_0000,
{
    reveal(surflet2_spec);
    lemma_fx_mul_sq_nonneg(dx);
    lemma_fx_mul_sq_nonneg(dy);
    lemma_fx_mul_bounds(dx, dx, 65536, 65536);
    lemma_fx_mul_bounds(dy, dy, 65536, 65536);
    let attn = 65536 - (fx_mul_spec(dx, dx) + fx_mul_spec(dy, dy));
    if attn > 0 {
        let h = hash2_spec(t, cx, cy);
        let g = grad2_spec(h);
        lemma_grad2_bounds(h);
        lemma_fx_mul_bounds(dx, g.0, 65536, 65536);
        lemma_fx_mul_bounds(dy, g.1, 65536, 65536);
        lemma_fx_mul_bounds(attn, attn, 65536, 65536);
        lemma_fx_mul_sq_nonneg(attn);
        let attn2 = fx_mul_spec(attn, attn);
        lemma_fx_mul_bounds(attn2, attn2, 65536, 65536);
        lemma_fx_mul_sq_nonneg(attn2);
        let attn4 = fx_mul_spec(attn2, attn2);
        let dot_g = fx_mul_spec(dx, g.0) + fx_mul_spec(dy, g.1);
        lemma_fx_mul_bounds(attn4, dot_g, 65536, 0x2_0002);
    }
}

/// Every 2-dimensional sample is bounded, whatever the table holds.
pub proof fn lemma_perlin2_bound(t: Seq<u8>, enable: bool, period: int, px: int, py: int)
    ensures
        abs_int(perlin2_spec(t, enable, period, px, py)) <= KERNEL_BOUND as int,
{
    let fx = px / 65536;
    let fy = py / 65536;
    let ndx = px % 65536;
    let ndy = py % 65536;
    lemma_mod_division_less_than_divisor(px, 65536);
    lemma_mod_division_less_than_divisor(py, 65536);
    let fdx = ndx - 65536;
    let fdy = ndy - 65536;
    let ncx = corner_spec(enable, period, fx);
    let ncy = corner_spec(enable, period, fy);
    let fcx = corner_spec(enable, period, fx + 1);
    let fcy = corner_spec(enable, period, fy + 1);
    lemma_surflet2_bound(t, ncx, ncy, ndx, ndy);
    lemma_surflet2_bound(t, fcx, ncy, fdx, ndy);
    lemma_surflet2_bound(t, ncx, fcy, ndx, fdy);
    lemma_surflet2_bound(t, fcx, fcy, fdx, fdy);
    let sum = surflet2_spec(t, ncx, ncy, ndx, ndy) + surflet2_spec(t, fcx, ncy, fdx, ndy)
        + surflet2_spec(t, ncx, fcy, ndx, fdy) + surflet2_spec(t, fcx, fcy, fdx, fdy);
    lemma_fx_mul_bounds(sum, NORM2 as int, 0x8_0014, NORM2 as int);
}

/// One corner's contribution, executable.
fn surflet2(table: &PermutationTable, cx: i64, cy: i64, dx: i64, dy: i64) -> (r: i64)
    requires
        table.values@.len() == 256,
        -65536 <= dx <= 65536,
        -65536 <= dy <= 65536,
    ensures
        r as int == surflet2_spec(table.values@, cx as int, cy as int, dx as int, dy as int),
{
    proof {
        reveal(surflet2_spec);
        lemma_surflet2_bound(table.values@, cx as int, cy as int, dx as int, dy as int);
        lemma_fx_mul_sq_nonneg(dx as int);
        lemma_fx_mul_sq_nonneg(dy as int);
        lemma_fx_mul_bounds(dx as int, dx as int, 65536, 65536);
        lemma_fx_mul_bounds(dy as int, dy as int, 65536, 65536);
    }
    let dot_d: i64 = fx_mul(dx, dx) + fx_mul(dy, dy);
    let attn: i64 = 65536 - dot_d;
    if attn > 0 {
        let h: u8 = table.get2([cx, cy]);
        let g: (i64, i64) = gradient::get2(h);
        proof {
            lemma_grad2_bounds(hash2_spec(table.values@, cx as int, cy as int));
            lemma_fx_mul_bounds(dx as int, g.0 as int, 65536, 65536);
            lemma_fx_mul_bounds(dy as int, g.1 as int, 65536, 65536);
        }
        let dot_g: i64 = fx_mul(dx, g.0) + fx_mul(dy, g.1);
        let attn2: i64 = fx_mul(attn, attn);
        let attn4: i64 = fx_mul(attn2, attn2);
        fx_mul(attn4, dot_g)
    } else {
        0
    }
}

/// The 2-dimensional sample a kernel instance computes at a point.
pub open spec fn perlin2_of(p: Perlin, px: int, py: int) -> int {
    perlin2_spec(p.perm_table.values@, p.enable_period, p.period as int, px, py)
}

/// The 3-dimensional sample a kernel instance computes at a point.
pub open spec fn perlin3_of(p: Perlin, px: int, py: int, pz: int) -> int {
    perlin3_spec(p.perm_table.values@, p.enable_period, p.period as int, px, py, pz)
}

/// The 4-dimensional sample a kernel instance computes at a point.
pub open spec fn perlin4_of(p: Perlin, px: int, py: int, pz: int, pw: int) -> int {
    perlin4_spec(p.perm_table.values@, p.enable_period, p.period as int, px, py, pz, pw)
}

/// Noise module that outputs 2/3/4-dimensional Perlin noise.
#[derive(Clone, Debug)]
pub struct Perlin {
    /// The seeded lookup table, always the one `seed` determines.
    pub perm_table: PermutationTable,
    /// Seed.
    pub seed: usize,
    /// Extent at which the noise grid wraps around, yielding seamlessly
    /// periodic noise in all dimensions.
    pub period: usize,
    /// Whether periodic wrap-around is active.
    pub enable_period: bool,
}

impl Perlin {
    /// The kernel's configuration invariant: the lookup table is the one
    /// the seed builds, and an active period lies in the accepted range.
    pub open spec fn well_formed(&self) -> bool {
        &&& self.perm_table.values@ == spec_build_table(low32(self.seed))
        &&& table_wf(self.perm_table.values@)
        &&& self.enable_period ==> 1 <= self.period <= MAX_PERIOD
    }

    /// A default kernel: seed 0, period 256, wrap-around off.
    pub fn new() -> (r: Perlin)
        ensures
            r.seed == DEFAULT_PERLIN_SEED,
            r.period == DEFAULT_PERLIN_PERIOD,
            !r.enable_period,
            r.well_formed(),
    {
        Perlin {
            perm_table: PermutationTable::new(0),
            seed: DEFAULT_PERLIN_SEED,
            period: DEFAULT_PERLIN_PERIOD,
            enable_period: false,
        }
    }

    /// A copy with the given seed and the lookup table rebuilt for it; the
    /// period settings carry over.  Pure: the receiver is consumed, no
    /// instance is mutated.
    pub fn set_seed(self, seed: usize) -> (r: Perlin)
        ensures
            r.seed == seed,
            r.period == self.period,
            r.enable_period == self.enable_period,
            self.well_formed() ==> r.well_formed(),
            !self.enable_period ==> r.well_formed(),
            r.perm_table.values@ == spec_build_table(low32(seed)),
            table_wf(r.perm_table.values@),
    {
        let s32: u32 = ((seed as u64) % 0x1_0000_0000) as u32;
        Perlin { perm_table: PermutationTable::new(s32), seed, ..self }
    }

    /// A copy with periodic wrap-around active at the given period,
    /// clipped into the accepted range.
    pub fn set_period(self, period: usize) -> (r: Perlin)
        ensures
            r.period as int == clamp_period(period as int),
            r.enable_period,
            r.seed == self.seed,
            r.perm_table == self.perm_table,
            self.well_formed() ==> r.well_formed(),
    {
        let p: usize = if period < 1 {
            1
        } else if period > MAX_PERIOD {
            MAX_PERIOD
        } else {
            period
        };
        Perlin { period: p, enable_period: true, ..self }
    }
}

impl crate::NoiseModule<[i64; 2]> for Perlin {
    open spec fn wf(&self) -> bool {
        self.well_formed()
    }

    open spec fn spec_get(&self, point: [i64; 2]) -> int {
        perlin2_spec(
            self.perm_table.values@,
            self.enable_period,
            self.period as int,
            point[0] as int,
            point[1] as int,
        )
    }

    fn get(&self, point: [i64; 2]) -> (r: i64) {
        let (fx, ndx) = fx_split(point[0]);
        let (fy, ndy) = fx_split(point[1]);
        let fdx: i64 = ndx - 65536;
        let fdy: i64 = ndy - 65536;
        let (ncx, fcx) = if self.enable_period {
            let per: i64 = self.period as i64;
            (emod_i64(fx, per), emod_i64(fx + 1, per))
        } else {
            (fx, fx + 1)
        };
        let (ncy, fcy) = if self.enable_period {
            let per: i64 = self.period as i64;
            (emod_i64(fy, per), emod_i64(fy + 1, per))
        } else {
            (fy, fy + 1)
        };
        proof {
            let t = self.perm_table.values@;
            lemma_surflet2_bound(t, ncx as int, ncy as int, ndx as int, ndy as int);
            lemma_surflet2_bound(t, fcx as int, ncy as int, fdx as int, ndy as int);
            lemma_surflet2_bound(t, ncx as int, fcy as int, ndx as int, fdy as int);
            lemma_surflet2_bound(t, fcx as int, fcy as int, fdx as int, fdy as int);
        }
        let f00: i64 = surflet2(&self.perm_table, ncx, ncy, ndx, ndy);
        let f10: i64 = surflet2(&self.perm_table, fcx, ncy, fdx, ndy);
        let f01: i64 = surflet2(&self.perm_table, ncx, fcy, ndx, fdy);
        let f11: i64 = surflet2(&self.perm_table, fcx, fcy, fdx, fdy);
        fx_mul(f00 + f10 + f01 + f11, NORM2)
    }
}

/// Periodic tiling: with wrap-around active, shifting any axis by any
/// whole multiple of the period leaves every 2-dimensional sample
/// unchanged.
pub proof fn lemma_perlin2_periodic_tiling(
    t: Seq<u8>,
    period: int,
    px: int,
    py: int,
    ax: int,
    ay: int,
)
    requires
        1 <= period,
    ensures
        perlin2_spec(t, true, period, px + ax * period * 65536, py + ay * period * 65536)
            == perlin2_spec(t, true, period, px, py),
{
    let kx = ax * period;
    let ky = ay * period;
    let qx = px + kx * 65536;
    let qy = py + ky * 65536;
    lemma_hoist_over_denominator(px, kx, 65536);
    lemma_hoist_over_denominator(py, ky, 65536);
    assert(qx / 65536 == px / 65536 + kx);
    assert(qy / 65536 == py / 65536 + ky);
    lemma_mod_multiples_vanish(kx, px, 65536);
    lemma_mod_multiples_vanish(ky, py, 65536);
    assert(qx % 65536 == px % 65536);
    assert(qy % 65536 == py % 65536);
    vstd::arithmetic::mul::lemma_mul_is_commutative(ax, period);
    vstd::arithmetic::mul::lemma_mul_is_commutative(ay, period);
    lemma_mod_multiples_vanish(ax, px / 65536, period);
    lemma_mod_multiples_vanish(ay, py / 65536, period);
    lemma_mod_multiples_vanish(ax, px / 65536 + 1, period);
    lemma_mod_multiples_vanish(ay, py / 65536 + 1, period);
    assert((qx / 65536) % period == (px / 65536) % period);
    assert((qy / 65536) % period == (py / 65536) % period);
    assert((qx / 65536 + 1) % period == (px / 65536 + 1) % period);
    assert((qy / 65536 + 1) % period == (py / 65536 + 1) % period);
}

/// At the origin every 2-dimensional sample is exactly zero: the corner at
/// the point itself contributes a zero dot product, and the falloff of
/// every other corner vanishes.
pub proof fn lemma_perlin2_origin_zero(t: Seq<u8>, enable: bool, period: int)
    ensures
        perlin2_spec(t, enable, period, 0, 0) == 0,
{
    reveal(surflet2_spec);
    lemma_zero_mul_div();
    assert(0int / 65536 == 0);
    assert(0int % 65536 == 0) by {
        vstd::arithmetic::div_mod::lemma_small_mod(0, 65536);
    }
    assert(fx_mul_spec(-65536, -65536) == 65536) by {
        assert((-65536) * (-65536) == 65536 * 65536);
        vstd::arithmetic::div_mod::lemma_div_multiples_vanish(65536, 65536);
    }
}

/// One corner's contribution to a 3-dimensional sample.
#[verifier::opaque]
pub open spec fn surflet3_spec(t: Seq<u8>, cx: int, cy: int, cz: int, dx: int, dy: int, dz: int)
    -> int {
    let attn = 65536 - (fx_mul_spec(dx, dx) + fx_mul_spec(dy, dy) + fx_mul_spec(dz, dz));
    if attn > 0 {
        let g = grad3_spec(hash3_spec(t, cx, cy, cz));
        let attn2 = fx_mul_spec(attn, attn);
        let attn4 = fx_mul_spec(attn2, attn2);
        fx_mul_spec(attn4, fx_mul_spec(dx, g.0) + fx_mul_spec(dy, g.1) + fx_mul_spec(dz, g.2))
    } else {
        0
    }
}

/// A 3-dimensional sample: the eight corner surflets of the cell
/// containing the point, summed and normalized.
pub open spec fn perlin3_spec(
    t: Seq<u8>,
    enable: bool,
    period: int,
    px: int,
    py: int,
    pz: int,
) -> int {
    let fx = px / 65536;
    let fy = py / 65536;
    let fz = pz / 65536;
    let ndx = px % 65536;
    let ndy = py % 65536;
    let ndz = pz % 65536;
    let fdx = ndx - 65536;
    let fdy = ndy - 65536;
    let fdz = ndz - 65536;
    let ncx = corner_spec(enable, period, fx);
    let ncy = corner_spec(enable, period, fy);
    let ncz = corner_spec(enable, period, fz);
    let fcx = corner_spec(enable, period, fx + 1);
    let fcy = corner_spec(enable, period, fy + 1);
    let fcz = corner_spec(enable, period, fz + 1);
    let sum = surflet3_spec(t, ncx, ncy, ncz, ndx, ndy, ndz) + surflet3_spec(
        t,
        fcx,
        ncy,
        ncz,
        fdx,
        ndy,
        ndz,
    ) + surflet3_spec(t, ncx, fcy, ncz, ndx, fdy, ndz) + surflet3_spec(
        t,
        fcx,
        fcy,
        ncz,
        fdx,
        fdy,
        ndz,
    ) + surflet3_spec(t, ncx, ncy, fcz, ndx, ndy, fdz) + surflet3_spec(
        t,
        fcx,
        ncy,
        fcz,
        fdx,
        ndy,
        fdz,
    ) + surflet3_spec(t, ncx, fcy, fcz, ndx, fdy, fdz) + surflet3_spec(
        t,
        fcx,
        fcy,
        fcz,
        fdx,
        fdy,
        fdz,
    );
    fx_mul_spec(sum, NORM3 as int)
}

/// Every 3-dimensional surflet over unit distances is bounded.
pub proof fn lemma_surflet3_bound(t: Seq<u8>, cx: int, cy: int, cz: int, dx: int, dy: int, dz: int)
    requires
        abs_int(dx) <= 65536,
        abs_int(dy) <= 65536,
        abs_int(dz) <= 65536,
    ensures
        abs_int(surflet3_spec(t, cx, cy, cz, dx, dy, dz)) <= 0x3_0008,
        0 <= fx_mul_spec(dx, dx) + fx_mul_spec(dy, dy) + fx_mul_spec(dz, dz) <= 0x3_0000,
{
    reveal(surflet3_spec);
    lemma_fx_mul_sq_nonneg(dx);
    lemma_fx_mul_sq_nonneg(dy);
    lemma_fx_mul_sq_nonneg(dz);
    lemma_fx_mul_bounds(dx, dx, 65536, 65536);
    lemma_fx_mul_bounds(dy, dy, 65536, 65536);
    lemma_fx_mul_bounds(dz, dz, 65536, 65536);
    let attn = 65536 - (fx_mul_spec(dx, dx) + fx_mul_spec(dy, dy) + fx_mul_spec(dz, dz));
    if attn > 0 {
        let h = hash3_spec(t, cx, cy, cz);
        let g = grad3_spec(h);
        lemma_grad3_bounds(h);
        lemma_fx_mul_bounds(dx, g.0, 65536, 65536);
        lemma_fx_mul_bounds(dy, g.1, 65536, 65536);
        lemma_fx_mul_bounds(dz, g.2, 65536, 65536);
        lemma_fx_mul_bounds(attn, attn, 65536, 65536);
        lemma_fx_mul_sq_nonneg(attn);
        let attn2 = fx_mul_spec(attn, attn);
        lemma_fx_mul_bounds(attn2, attn2, 65536, 65536);
        lemma_fx_mul_sq_nonneg(attn2);
        let attn4 = fx_mul_spec(attn2, attn2);
        let dot_g = fx_mul_spec(dx, g.0) + fx_mul_spec(dy, g.1) + fx_mul_spec(dz, g.2);
        lemma_fx_mul_bounds(attn4, dot_g, 65536, 0x3_0003);
    }
}

/// Every 3-dimensional sample is bounded, whatever the table holds.
pub proof fn lemma_perlin3_bound(
    t: Seq<u8>,
    enable: bool,
    period: int,
    px: int,
    py: int,
    pz: int,
)
    ensures
        abs_int(perlin3_spec(t, enable, period, px, py, pz)) <= KERNEL_BOUND as int,
{
    let fx = px / 65536;
    let fy = py / 65536;
    let fz = pz / 65536;
    let ndx = px % 65536;
    let ndy = py % 65536;
    let ndz = pz % 65536;
    lemma_mod_division_less_than_divisor(px, 65536);
    lemma_mod_division_less_than_divisor(py, 65536);
    lemma_mod_division_less_than_divisor(pz, 65536);
    let fdx = ndx - 65536;
    let fdy = ndy - 65536;
    let fdz = ndz - 65536;
    let ncx = corner_spec(enable, period, fx);
    let ncy = corner_spec(enable, period, fy);
    let ncz = corner_spec(enable, period, fz);
    let fcx = corner_spec(enable, period, fx + 1);
    let fcy = corner_spec(enable, period, fy + 1);
    let fcz = corner_spec(enable, period, fz + 1);
    lemma_surflet3_bound(t, ncx, ncy, ncz, ndx, ndy, ndz);
    lemma_surflet3_bound(t, fcx, ncy, ncz, fdx, ndy, ndz);
    lemma_surflet3_bound(t, ncx, fcy, ncz, ndx, fdy, ndz);
    lemma_surflet3_bound(t, fcx, fcy, ncz, fdx, fdy, ndz);
    lemma_surflet3_bound(t, ncx, ncy, fcz, ndx, ndy, fdz);
    lemma_surflet3_bound(t, fcx, ncy, fcz, fdx, ndy, fdz);
    lemma_surflet3_bound(t, ncx, fcy, fcz, ndx, fdy, fdz);
    lemma_surflet3_bound(t, fcx, fcy, fcz, fdx, fdy, fdz);
    let sum = surflet3_spec(t, ncx, ncy, ncz, ndx, ndy, ndz) + surflet3_spec(
        t,
        fcx,
        ncy,
        ncz,
        fdx,
        ndy,
        ndz,
    ) + surflet3_spec(t, ncx, fcy, ncz, ndx, fdy, ndz) + surflet3_spec(
        t,
        fcx,
        fcy,
        ncz,
        fdx,
        fdy,
        ndz,
    ) + surflet3_spec(t, ncx, ncy, fcz, ndx, ndy, fdz) + surflet3_spec(
        t,
        fcx,
        ncy,
        fcz,
        fdx,
        ndy,
        fdz,
    ) + surflet3_spec(t, ncx, fcy, fcz, ndx, fdy, fdz) + surflet3_spec(
        t,
        fcx,
        fcy,
        fcz,
        fdx,
        fdy,
        fdz,
    );
    lemma_fx_mul_bounds(sum, NORM3 as int, 0x18_0040, NORM3 as int);
}

/// One corner's contribution, executable.
fn surflet3(table: &PermutationTable, cx: i64, cy: i64, cz: i64, dx: i64, dy: i64, dz: i64) -> (r:
    i64)
    requires
        table.values@.len() == 256,
        -65536 <= dx <= 65536,
        -65536 <= dy <= 65536,
        -65536 <= dz <= 65536,
    ensures
        r as int == surflet3_spec(
            table.values@,
            cx as int,
            cy as int,
            cz as int,
            dx as int,
            dy as int,
            dz as int,
        ),
{
    proof {
        reveal(surflet3_spec);
        lemma_surflet3_bound(
            table.values@,
            cx as int,
            cy as int,
            cz as int,
            dx as int,
            dy as int,
            dz as int,
        );
        lemma_fx_mul_sq_nonneg(dx as int);
        lemma_fx_mul_sq_nonneg(dy as int);
        lemma_fx_mul_sq_nonneg(dz as int);
        lemma_fx_mul_bounds(dx as int, dx as int, 65536, 65536);
        lemma_fx_mul_bounds(dy as int, dy as int, 65536, 65536);
        lemma_fx_mul_bounds(dz as int, dz as int, 65536, 65536);
    }
    let dot_d: i64 = fx_mul(dx, dx) + fx_mul(dy, dy) + fx_mul(dz, dz);
    let attn: i64 = 65536 - dot_d;
    if attn > 0 {
        let h: u8 = table.get3([cx, cy, cz]);
        let g: (i64, i64, i64) = gradient::get3(h);
        proof {
            lemma_grad3_bounds(hash3_spec(table.values@, cx as int, cy as int, cz as int));
            lemma_fx_mul_bounds(dx as int, g.0 as int, 65536, 65536);
            lemma_fx_mul_bounds(dy as int, g.1 as int, 65536, 65536);
            lemma_fx_mul_bounds(dz as int, g.2 as int, 65536, 65536);
        }
        let dot_g: i64 = fx_mul(dx, g.0) + fx_mul(dy, g.1) + fx_mul(dz, g.2);
        let attn2: i64 = fx_mul(attn, attn);
        let attn4: i64 = fx_mul(attn2, attn2);
        fx_mul(attn4, dot_g)
    } else {
        0
    }
}

impl crate::NoiseModule<[i64; 3]> for Perlin {
    open spec fn wf(&self) -> bool {
        self.well_formed()
    }

    open spec fn spec_get(&self, point: [i64; 3]) -> int {
        perlin3_spec(
            self.perm_table.values@,
            self.enable_period,
            self.period as int,
            point[0] as int,
            point[1] as int,
            point[2] as int,
        )
    }

    #[verifier::rlimit(60)]
    fn get(&self, point: [i64; 3]) -> (r: i64) {
        let (fx, ndx) = fx_split(point[0]);
        let (fy, ndy) = fx_split(point[1]);
        let (fz, ndz) = fx_split(point[2]);
        let fdx: i64 = ndx - 65536;
        let fdy: i64 = ndy - 65536;
        let fdz: i64 = ndz - 65536;
        let (ncx, fcx) = if self.enable_period {
            let per: i64 = self.period as i64;
            (emod_i64(fx, per), emod_i64(fx + 1, per))
        } else {
            (fx, fx + 1)
        };
        let (ncy, fcy) = if self.enable_period {
            let per: i64 = self.period as i64;
            (emod_i64(fy, per), emod_i64(fy + 1, per))
        } else {
            (fy, fy + 1)
        };
        let (ncz, fcz) = if self.enable_period {
            let per: i64 = self.period as i64;
            (emod_i64(fz, per), emod_i64(fz + 1, per))
        } else {
            (fz, fz + 1)
        };
        proof {
            let t = self.perm_table.values@;
            lemma_surflet3_bound(t, ncx as int, ncy as int, ncz as int, ndx as int, ndy as int,
                ndz as int);
            lemma_surflet3_bound(t, fcx as int, ncy as int, ncz as int, fdx as int, ndy as int,
                ndz as int);
            lemma_surflet3_bound(t, ncx as int, fcy as int, ncz as int, ndx as int, fdy as int,
                ndz as int);
            lemma_surflet3_bound(t, fcx as int, fcy as int, ncz as int, fdx as int, fdy as int,
                ndz as int);
            lemma_surflet3_bound(t, ncx as int, ncy as int, fcz as int, ndx as int, ndy as int,
                fdz as int);
            lemma_surflet3_bound(t, fcx as int, ncy as int, fcz as int, fdx as int, ndy as int,
                fdz as int);
            lemma_surflet3_bound(t, ncx as int, fcy as int, fcz as int, ndx as int, fdy as int,
                fdz as int);
            lemma_surflet3_bound(t, fcx as int, fcy as int, fcz as int, fdx as int, fdy as int,
                fdz as int);
        }
        let f000: i64 = surflet3(&self.perm_table, ncx, ncy, ncz, ndx, ndy, ndz);
        let f100: i64 = surflet3(&self.perm_table, fcx, ncy, ncz, fdx, ndy, ndz);
        let f010: i64 = surflet3(&self.perm_table, ncx, fcy, ncz, ndx, fdy, ndz);
        let f110: i64 = surflet3(&self.perm_table, fcx, fcy, ncz, fdx, fdy, ndz);
        let f001: i64 = surflet3(&self.perm_table, ncx, ncy, fcz, ndx, ndy, fdz);
        let f101: i64 = surflet3(&self.perm_table, fcx, ncy, fcz, fdx, ndy, fdz);
        let f011: i64 = surflet3(&self.perm_table, ncx, fcy, fcz, ndx, fdy, fdz);
        let f111: i64 = surflet3(&self.perm_table, fcx, fcy, fcz, fdx, fdy, fdz);
        fx_mul(f000 + f100 + f010 + f110 + f001 + f101 + f011 + f111, NORM3)
    }
}

/// Periodic tiling for 3-dimensional samples.
pub proof fn lemma_perlin3_periodic_tiling(
    t: Seq<u8>,
    period: int,
    px: int,
    py: int,
    pz: int,
    ax: int,
    ay: int,
    az: int,
)
    requires
        1 <= period,
    ensures
        perlin3_spec(
            t,
            true,
            period,
            px + ax * period * 65536,
            py + ay * period * 65536,
            pz + az * period * 65536,
        ) == perlin3_spec(t, true, period, px, py, pz),
{
    let kx = ax * period;
    let ky = ay * period;
    let kz = az * period;
    let qx = px + kx * 65536;
    let qy = py + ky * 65536;
    let qz = pz + kz * 65536;
    lemma_hoist_over_denominator(px, kx, 65536);
    lemma_hoist_over_denominator(py, ky, 65536);
    lemma_hoist_over_denominator(pz, kz, 65536);
    assert(qx / 65536 == px / 65536 + kx);
    assert(qy / 65536 == py / 65536 + ky);
    assert(qz / 65536 == pz / 65536 + kz);
    lemma_mod_multiples_vanish(kx, px, 65536);
    lemma_mod_multiples_vanish(ky, py, 65536);
    lemma_mod_multiples_vanish(kz, pz, 65536);
    assert(qx % 65536 == px % 65536);
    assert(qy % 65536 == py % 65536);
    assert(qz % 65536 == pz % 65536);
    vstd::arithmetic::mul::lemma_mul_is_commutative(ax, period);
    vstd::arithmetic::mul::lemma_mul_is_commutative(ay, period);
    vstd::arithmetic::mul::lemma_mul_is_commutative(az, period);
    lemma_mod_multiples_vanish(ax, px / 65536, period);
    lemma_mod_multiples_vanish(ay, py / 65536, period);
    lemma_mod_multiples_vanish(az, pz / 65536, period);
    lemma_mod_multiples_vanish(ax, px / 65536 + 1, period);
    lemma_mod_multiples_vanish(ay, py / 65536 + 1, period);
    lemma_mod_multiples_vanish(az, pz / 65536 + 1, period);
    assert((qx / 65536) % period == (px / 65536) % period);
    assert((qy / 65536) % period == (py / 65536) % period);
    assert((qz / 65536) % period == (pz / 65536) % period);
    assert((qx / 65536 + 1) % period == (px / 65536 + 1) % period);
    assert((qy / 65536 + 1) % period == (py / 65536 + 1) % period);
    assert((qz / 65536 + 1) % period == (pz / 65536 + 1) % period);
}

/// At the origin every 3-dimensional sample is exactly zero.
pub proof fn lemma_perlin3_origin_zero(t: Seq<u8>, enable: bool, period: int)
    ensures
        perlin3_spec(t, enable, period, 0, 0, 0) == 0,
{
    reveal(surflet3_spec);
    lemma_zero_mul_div();
    assert(0int / 65536 == 0);
    assert(0int % 65536 == 0) by {
        vstd::arithmetic::div_mod::lemma_small_mod(0, 65536);
    }
    assert(fx_mul_spec(-65536, -65536) == 65536) by {
        assert((-65536) * (-65536) == 65536 * 65536);
        vstd::arithmetic::div_mod::lemma_div_multiples_vanish(65536, 65536);
    }
}

/// One corner's contribution to a 4-dimensional sample.
#[verifier::opaque]
pub open spec fn surflet4_spec(
    t: Seq<u8>,
    cx: int,
    cy: int,
    cz: int,
    cw: int,
    dx: int,
    dy: int,
    dz: int,
    dw: int,
) -> int {
    let attn = 65536 - (fx_mul_spec(dx, dx) + fx_mul_spec(dy, dy) + fx_mul_spec(dz, dz)
        + fx_mul_spec(dw, dw));
    if attn > 0 {
        let g = grad4_spec(hash4_spec(t, cx, cy, cz, cw));
        let attn2 = fx_mul_spec(attn, attn);
        let attn4 = fx_mul_spec(attn2, attn2);
        fx_mul_spec(
            attn4,
            fx_mul_spec(dx, g.0) + fx_mul_spec(dy, g.1) + fx_mul_spec(dz, g.2) + fx_mul_spec(
                dw,
                g.3,
            ),
        )
    } else {
        0
    }
}

/// Eight corner surflets of a 4-dimensional cell sharing one corner and
/// distance along the last axis.
pub open spec fn surflet4_octet_spec(
    t: Seq<u8>,
    nx: int,
    ny: int,
    nz: int,
    gx: int,
    gy: int,
    gz: int,
    cw: int,
    ndx: int,
    ndy: int,
    ndz: int,
    fdx: int,
    fdy: int,
    fdz: int,
    dw: int,
) -> int {
    surflet4_spec(t, nx, ny, nz, cw, ndx, ndy, ndz, dw) + surflet4_spec(
        t,
        gx,
        ny,
        nz,
        cw,
        fdx,
        ndy,
        ndz,
        dw,
    ) + surflet4_spec(t, nx, gy, nz, cw, ndx, fdy, ndz, dw) + surflet4_spec(
        t,
        gx,
        gy,
        nz,
        cw,
        fdx,
        fdy,
        ndz,
        dw,
    ) + surflet4_spec(t, nx, ny, gz, cw, ndx, ndy, fdz, dw) + surflet4_spec(
        t,
        gx,
        ny,
        gz,
        cw,
        fdx,
        ndy,
        fdz,
        dw,
    ) + surflet4_spec(t, nx, gy, gz, cw, ndx, fdy, fdz, dw) + surflet4_spec(
        t,
        gx,
        gy,
        gz,
        cw,
        fdx,
        fdy,
        fdz,
        dw,
    )
}

/// The sum of the sixteen corner surflets of the cell containing a
/// 4-dimensional point, with near corner `n` and far corner `f` per axis
/// and the matching distances: the near-`w` octet plus the far-`w` octet.
pub open spec fn surflet4_sum_spec(
    t: Seq<u8>,
    nx: int,
    ny: int,
    nz: int,
    nw: int,
    gx: int,
    gy: int,
    gz: int,
    gw: int,
    ndx: int,
    ndy: int,
    ndz: int,
    ndw: int,
    fdx: int,
    fdy: int,
    fdz: int,
    fdw: int,
) -> int {
    surflet4_octet_spec(t, nx, ny, nz, gx, gy, gz, nw, ndx, ndy, ndz, fdx, fdy, fdz, ndw)
        + surflet4_octet_spec(t, nx, ny, nz, gx, gy, gz, gw, ndx, ndy, ndz, fdx, fdy, fdz, fdw)
}

/// A 4-dimensional sample: the sixteen corner surflets of the cell
/// containing the point, summed and normalized.
pub open spec fn perlin4_spec(
    t: Seq<u8>,
    enable: bool,
    period: int,
    px: int,
    py: int,
    pz: int,
    pw: int,
) -> int {
    let ndx = px % 65536;
    let ndy = py % 65536;
    let ndz = pz % 65536;
    let ndw = pw % 65536;
    let sum = surflet4_sum_spec(
        t,
        corner_spec(enable, period, px / 65536),
        corner_spec(enable, period, py / 65536),
        corner_spec(enable, period, pz / 65536),
        corner_spec(enable, period, pw / 65536),
        corner_spec(enable, period, px / 65536 + 1),
        corner_spec(enable, period, py / 65536 + 1),
        corner_spec(enable, period, pz / 65536 + 1),
        corner_spec(enable, period, pw / 65536 + 1),
        ndx,
        ndy,
        ndz,
        ndw,
        ndx - 65536,
        ndy - 65536,
        ndz - 65536,
        ndw - 65536,
    );
    fx_mul_spec(sum, NORM4 as int)
}

/// Every 4-dimensional surflet over unit distances is bounded.
pub proof fn lemma_surflet4_bound(
    t: Seq<u8>,
    cx: int,
    cy: int,
    cz: int,
    cw: int,
    dx: int,
    dy: int,
    dz: int,
    dw: int,
)
    requires
        abs_int(dx) <= 65536,
        abs_int(dy) <= 65536,
        abs_int(dz) <= 65536,
        abs_int(dw) <= 65536,
    ensures
        abs_int(surflet4_spec(t, cx, cy, cz, cw, dx, dy, dz, dw)) <= 0x4_000A,
{
    reveal(surflet4_spec);
    lemma_fx_mul_sq_nonneg(dx);
    lemma_fx_mul_sq_nonneg(dy);
    lemma_fx_mul_sq_nonneg(dz);
    lemma_fx_mul_sq_nonneg(dw);
    lemma_fx_mul_bounds(dx, dx, 65536, 65536);
    lemma_fx_mul_bounds(dy, dy, 65536, 65536);
    lemma_fx_mul_bounds(dz, dz, 65536, 65536);
    lemma_fx_mul_bounds(dw, dw, 65536, 65536);
    let attn = 65536 - (fx_mul_spec(dx, dx) + fx_mul_spec(dy, dy) + fx_mul_spec(dz, dz)
        + fx_mul_spec(dw, dw));
    if attn > 0 {
        let h = hash4_spec(t, cx, cy, cz, cw);
        let g = grad4_spec(h);
        lemma_grad4_bounds(h);
        lemma_fx_mul_bounds(dx, g.0, 65536, 65536);
        lemma_fx_mul_bounds(dy, g.1, 65536, 65536);
        lemma_fx_mul_bounds(dz, g.2, 65536, 65536);
        lemma_fx_mul_bounds(dw, g.3, 65536, 65536);
        lemma_fx_mul_bounds(attn, attn, 65536, 65536);
        lemma_fx_mul_sq_nonneg(attn);
        let attn2 = fx_mul_spec(attn, attn);
        lemma_fx_mul_bounds(attn2, attn2, 65536, 65536);
        lemma_fx_mul_sq_nonneg(attn2);
        let attn4 = fx_mul_spec(attn2, attn2);
        let dot_g = fx_mul_spec(dx, g.0) + fx_mul_spec(dy, g.1) + fx_mul_spec(dz, g.2)
            + fx_mul_spec(dw, g.3);
        lemma_fx_mul_bounds(attn4, dot_g, 65536, 0x4_0004);
    }
}

/// An octet of surflets over unit distances is bounded.
pub proof fn lemma_surflet4_octet_bound(
    t: Seq<u8>,
    nx: int,
    ny: int,
    nz: int,
    gx: int,
    gy: int,
    gz: int,
    cw: int,
    ndx: int,
    ndy: int,
    ndz: int,
    fdx: int,
    fdy: int,
    fdz: int,
    dw: int,
)
    requires
        abs_int(ndx) <= 65536,
        abs_int(ndy) <= 65536,
        abs_int(ndz) <= 65536,
        abs_int(fdx) <= 65536,
        abs_int(fdy) <= 65536,
        abs_int(fdz) <= 65536,
        abs_int(dw) <= 65536,
    ensures
        abs_int(
            surflet4_octet_spec(t, nx, ny, nz, gx, gy, gz, cw, ndx, ndy, ndz, fdx, fdy, fdz, dw),
        ) <= 0x20_0050,
{
    lemma_surflet4_bound(t, nx, ny, nz, cw, ndx, ndy, ndz, dw);
    lemma_surflet4_bound(t, gx, ny, nz, cw, fdx, ndy, ndz, dw);
    lemma_surflet4_bound(t, nx, gy, nz, cw, ndx, fdy, ndz, dw);
    lemma_surflet4_bound(t, gx, gy, nz, cw, fdx, fdy, ndz, dw);
    lemma_surflet4_bound(t, nx, ny, gz, cw, ndx, ndy, fdz, dw);
    lemma_surflet4_bound(t, gx, ny, gz, cw, fdx, ndy, fdz, dw);
    lemma_surflet4_bound(t, nx, gy, gz, cw, ndx, fdy, fdz, dw);
    lemma_surflet4_bound(t, gx, gy, gz, cw, fdx, fdy, fdz, dw);
}

/// The sixteen-surflet sum over unit distances is bounded.
pub proof fn lemma_surflet4_sum_bound(
    t: Seq<u8>,
    nx: int,
    ny: int,
    nz: int,
    nw: int,
    gx: int,
    gy: int,
    gz: int,
    gw: int,
    ndx: int,
    ndy: int,
    ndz: int,
    ndw: int,
    fdx: int,
    fdy: int,
    fdz: int,
    fdw: int,
)
    requires
        abs_int(ndx) <= 65536,
        abs_int(ndy) <= 65536,
        abs_int(ndz) <= 65536,
        abs_int(ndw) <= 65536,
        abs_int(fdx) <= 65536,
        abs_int(fdy) <= 65536,
        abs_int(fdz) <= 65536,
        abs_int(fdw) <= 65536,
    ensures
        abs_int(
            surflet4_sum_spec(
                t,
                nx,
                ny,
                nz,
                nw,
                gx,
                gy,
                gz,
                gw,
                ndx,
                ndy,
                ndz,
                ndw,
                fdx,
                fdy,
                fdz,
                fdw,
            ),
        ) <= 0x40_00A0,
{
    lemma_surflet4_octet_bound(t, nx, ny, nz, gx, gy, gz, nw, ndx, ndy, ndz, fdx, fdy, fdz, ndw);
    lemma_surflet4_octet_bound(t, nx, ny, nz, gx, gy, gz, gw, ndx, ndy, ndz, fdx, fdy, fdz, fdw);
}

/// Every 4-dimensional sample is bounded, whatever the table holds.
pub proof fn lemma_perlin4_bound(
    t: Seq<u8>,
    enable: bool,
    period: int,
    px: int,
    py: int,
    pz: int,
    pw: int,
)
    ensures
        abs_int(perlin4_spec(t, enable, period, px, py, pz, pw)) <= KERNEL_BOUND as int,
{
    lemma_mod_division_less_than_divisor(px, 65536);
    lemma_mod_division_less_than_divisor(py, 65536);
    lemma_mod_division_less_than_divisor(pz, 65536);
    lemma_mod_division_less_than_divisor(pw, 65536);
    let ndx = px % 65536;
    let ndy = py % 65536;
    let ndz = pz % 65536;
    let ndw = pw % 65536;
    lemma_surflet4_sum_bound(
        t,
        corner_spec(enable, period, px / 65536),
        corner_spec(enable, period, py / 65536),
        corner_spec(enable, period, pz / 65536),
        corner_spec(enable, period, pw / 65536),
        corner_spec(enable, period, px / 65536 + 1),
        corner_spec(enable, period, py / 65536 + 1),
        corner_spec(enable, period, pz / 65536 + 1),
        corner_spec(enable, period, pw / 65536 + 1),
        ndx,
        ndy,
        ndz,
        ndw,
        ndx - 65536,
        ndy - 65536,
        ndz - 65536,
        ndw - 65536,
    );
    let sum = surflet4_sum_spec(
        t,
        corner_spec(enable, period, px / 65536),
        corner_spec(enable, period, py / 65536),
        corner_spec(enable, period, pz / 65536),
        corner_spec(enable, period, pw / 65536),
        corner_spec(enable, period, px / 65536 + 1),
        corner_spec(enable, period, py / 65536 + 1),
        corner_spec(enable, period, pz / 65536 + 1),
        corner_spec(enable, period, pw / 65536 + 1),
        ndx,
        ndy,
        ndz,
        ndw,
        ndx - 65536,
        ndy - 65536,
        ndz - 65536,
        ndw - 65536,
    );
    lemma_fx_mul_bounds(sum, NORM4 as int, 0x40_00A0, NORM4 as int);
}

/// One corner's contribution, executable.
fn surflet4(
    table: &PermutationTable,
    cx: i64,
    cy: i64,
    cz: i64,
    cw: i64,
    dx: i64,
    dy: i64,
    dz: i64,
    dw: i64,
) -> (r: i64)
    requires
        table.values@.len() == 256,
        -65536 <= dx <= 65536,
        -65536 <= dy <= 65536,
        -65536 <= dz <= 65536,
        -65536 <= dw <= 65536,
    ensures
        r as int == surflet4_spec(
            table.values@,
            cx as int,
            cy as int,
            cz as int,
            cw as int,
            dx as int,
            dy as int,
            dz as int,
            dw as int,
        ),
{
    proof {
        reveal(surflet4_spec);
        lemma_fx_mul_sq_nonneg(dx as int);
        lemma_fx_mul_sq_nonneg(dy as int);
        lemma_fx_mul_sq_nonneg(dz as int);
        lemma_fx_mul_sq_nonneg(dw as int);
        lemma_fx_mul_bounds(dx as int, dx as int, 65536, 65536);
        lemma_fx_mul_bounds(dy as int, dy as int, 65536, 65536);
        lemma_fx_mul_bounds(dz as int, dz as int, 65536, 65536);
        lemma_fx_mul_bounds(dw as int, dw as int, 65536, 65536);
    }
    let dot_d: i64 = fx_mul(dx, dx) + fx_mul(dy, dy) + fx_mul(dz, dz) + fx_mul(dw, dw);
    let attn: i64 = 65536 - dot_d;
    if attn > 0 {
        let h: u8 = table.get4([cx, cy, cz, cw]);
        let g: (i64, i64, i64, i64) = gradient::get4(h);
        proof {
            lemma_grad4_bounds(
                hash4_spec(table.values@, cx as int, cy as int, cz as int, cw as int),
            );
            lemma_fx_mul_bounds(dx as int, g.0 as int, 65536, 65536);
            lemma_fx_mul_bounds(dy as int, g.1 as int, 65536, 65536);
            lemma_fx_mul_bounds(dz as int, g.2 as int, 65536, 65536);
            lemma_fx_mul_bounds(dw as int, g.3 as int, 65536, 65536);
        }
        let dot_g: i64 = fx_mul(dx, g.0) + fx_mul(dy, g.1) + fx_mul(dz, g.2) + fx_mul(dw, g.3);
        let attn2: i64 = fx_mul(attn, attn);
        let attn4: i64 = fx_mul(attn2, attn2);
        fx_mul(attn4, dot_g)
    } else {
        0
    }
}

/// An octet of corner surflets, executable.
#[verifier::rlimit(60)]
fn surflet4_octet(
    table: &PermutationTable,
    nx: i64,
    ny: i64,
    nz: i64,
    gx: i64,
    gy: i64,
    gz: i64,
    cw: i64,
    ndx: i64,
    ndy: i64,
    ndz: i64,
    fdx: i64,
    fdy: i64,
    fdz: i64,
    dw: i64,
) -> (r: i64)
    requires
        table.values@.len() == 256,
        0 <= ndx < 65536,
        0 <= ndy < 65536,
        0 <= ndz < 65536,
        -65536 <= dw <= 65536,
        fdx == ndx - 65536,
        fdy == ndy - 65536,
        fdz == ndz - 65536,
    ensures
        r as int == surflet4_octet_spec(
            table.values@,
            nx as int,
            ny as int,
            nz as int,
            gx as int,
            gy as int,
            gz as int,
            cw as int,
            ndx as int,
            ndy as int,
            ndz as int,
            fdx as int,
            fdy as int,
            fdz as int,
            dw as int,
        ),
{
    proof {
        let t = table.values@;
        lemma_surflet4_bound(t, nx as int, ny as int, nz as int, cw as int, ndx as int, ndy as int,
            ndz as int, dw as int);
        lemma_surflet4_bound(t, gx as int, ny as int, nz as int, cw as int, fdx as int, ndy as int,
            ndz as int, dw as int);
        lemma_surflet4_bound(t, nx as int, gy as int, nz as int, cw as int, ndx as int, fdy as int,
            ndz as int, dw as int);
        lemma_surflet4_bound(t, gx as int, gy as int, nz as int, cw as int, fdx as int, fdy as int,
            ndz as int, dw as int);
        lemma_surflet4_bound(t, nx as int, ny as int, gz as int, cw as int, ndx as int, ndy as int,
            fdz as int, dw as int);
        lemma_surflet4_bound(t, gx as int, ny as int, gz as int, cw as int, fdx as int, ndy as int,
            fdz as int, dw as int);
        lemma_surflet4_bound(t, nx as int, gy as int, gz as int, cw as int, ndx as int, fdy as int,
            fdz as int, dw as int);
        lemma_surflet4_bound(t, gx as int, gy as int, gz as int, cw as int, fdx as int, fdy as int,
            fdz as int, dw as int);
    }
    let f0: i64 = surflet4(table, nx, ny, nz, cw, ndx, ndy, ndz, dw);
    let f1: i64 = surflet4(table, gx, ny, nz, cw, fdx, ndy, ndz, dw);
    let f2: i64 = surflet4(table, nx, gy, nz, cw, ndx, fdy, ndz, dw);
    let f3: i64 = surflet4(table, gx, gy, nz, cw, fdx, fdy, ndz, dw);
    let f4: i64 = surflet4(table, nx, ny, gz, cw, ndx, ndy, fdz, dw);
    let f5: i64 = surflet4(table, gx, ny, gz, cw, fdx, ndy, fdz, dw);
    let f6: i64 = surflet4(table, nx, gy, gz, cw, ndx, fdy, fdz, dw);
    let f7: i64 = surflet4(table, gx, gy, gz, cw, fdx, fdy, fdz, dw);
    f0 + f1 + f2 + f3 + f4 + f5 + f6 + f7
}

/// The sixteen corner surflets of a 4-dimensional cell, summed.
fn surflet4_sum(
    table: &PermutationTable,
    nx: i64,
    ny: i64,
    nz: i64,
    nw: i64,
    gx: i64,
    gy: i64,
    gz: i64,
    gw: i64,
    ndx: i64,
    ndy: i64,
    ndz: i64,
    ndw: i64,
    fdx: i64,
    fdy: i64,
    fdz: i64,
    fdw: i64,
) -> (r: i64)
    requires
        table.values@.len() == 256,
        0 <= ndx < 65536,
        0 <= ndy < 65536,
        0 <= ndz < 65536,
        0 <= ndw < 65536,
        fdx == ndx - 65536,
        fdy == ndy - 65536,
        fdz == ndz - 65536,
        fdw == ndw - 65536,
    ensures
        r as int == surflet4_sum_spec(
            table.values@,
            nx as int,
            ny as int,
            nz as int,
            nw as int,
            gx as int,
            gy as int,
            gz as int,
            gw as int,
            ndx as int,
            ndy as int,
            ndz as int,
            ndw as int,
            fdx as int,
            fdy as int,
            fdz as int,
            fdw as int,
        ),
{
    proof {
        let t = table.values@;
        lemma_surflet4_octet_bound(t, nx as int, ny as int, nz as int, gx as int, gy as int,
            gz as int, nw as int, ndx as int, ndy as int, ndz as int, fdx as int, fdy as int,
            fdz as int, ndw as int);
        lemma_surflet4_octet_bound(t, nx as int, ny as int, nz as int, gx as int, gy as int,
            gz as int, gw as int, ndx as int, ndy as int, ndz as int, fdx as int, fdy as int,
            fdz as int, fdw as int);
    }
    let near: i64 = surflet4_octet(table, nx, ny, nz, gx, gy, gz, nw, ndx, ndy, ndz, fdx, fdy,
        fdz, ndw);
    let far: i64 = surflet4_octet(table, nx, ny, nz, gx, gy, gz, gw, ndx, ndy, ndz, fdx, fdy, fdz,
        fdw);
    near + far
}

impl crate::NoiseModule<[i64; 4]> for Perlin {
    open spec fn wf(&self) -> bool {
        self.well_formed()
    }

    open spec fn spec_get(&self, point: [i64; 4]) -> int {
        perlin4_spec(
            self.perm_table.values@,
            self.enable_period,
            self.period as int,
            point[0] as int,
            point[1] as int,
            point[2] as int,
            point[3] as int,
        )
    }

    fn get(&self, point: [i64; 4]) -> (r: i64) {
        let (fx, ndx) = fx_split(point[0]);
        let (fy, ndy) = fx_split(point[1]);
        let (fz, ndz) = fx_split(point[2]);
        let (fw, ndw) = fx_split(point[3]);
        let fdx: i64 = ndx - 65536;
        let fdy: i64 = ndy - 65536;
        let fdz: i64 = ndz - 65536;
        let fdw: i64 = ndw - 65536;
        let (ncx, fcx) = if self.enable_period {
            let per: i64 = self.period as i64;
            (emod_i64(fx, per), emod_i64(fx + 1, per))
        } else {
            (fx, fx + 1)
        };
        let (ncy, fcy) = if self.enable_period {
            let per: i64 = self.period as i64;
            (emod_i64(fy, per), emod_i64(fy + 1, per))
        } else {
            (fy, fy + 1)
        };
        let (ncz, fcz) = if self.enable_period {
            let per: i64 = self.period as i64;
            (emod_i64(fz, per), emod_i64(fz + 1, per))
        } else {
            (fz, fz + 1)
        };
        let (ncw, fcw) = if self.enable_period {
            let per: i64 = self.period as i64;
            (emod_i64(fw, per), emod_i64(fw + 1, per))
        } else {
            (fw, fw + 1)
        };
        let sum: i64 = surflet4_sum(
            &self.perm_table,
            ncx,
            ncy,
            ncz,
            ncw,
            fcx,
            fcy,
            fcz,
            fcw,
            ndx,
            ndy,
            ndz,
            ndw,
            fdx,
            fdy,
            fdz,
            fdw,
        );
        proof {
            lemma_surflet4_sum_bound(
                self.perm_table.values@,
                ncx as int,
                ncy as int,
                ncz as int,
                ncw as int,
                fcx as int,
                fcy as int,
                fcz as int,
                fcw as int,
                ndx as int,
                ndy as int,
                ndz as int,
                ndw as int,
                fdx as int,
                fdy as int,
                fdz as int,
                fdw as int,
            );
        }
        fx_mul(sum, NORM4)
    }
}

/// Periodic tiling for 4-dimensional samples.
pub proof fn lemma_perlin4_periodic_tiling(
    t: Seq<u8>,
    period: int,
    px: int,
    py: int,
    pz: int,
    pw: int,
    ax: int,
    ay: int,
    az: int,
    aw: int,
)
    requires
        1 <= period,
    ensures
        perlin4_spec(
            t,
            true,
            period,
            px + ax * period * 65536,
            py + ay * period * 65536,
            pz + az * period * 65536,
            pw + aw * period * 65536,
        ) == perlin4_spec(t, true, period, px, py, pz, pw),
{
    let kx = ax * period;
    let ky = ay * period;
    let kz = az * period;
    let kw = aw * period;
    let qx = px + kx * 65536;
    let qy = py + ky * 65536;
    let qz = pz + kz * 65536;
    let qw = pw + kw * 65536;
    lemma_hoist_over_denominator(px, kx, 65536);
    lemma_hoist_over_denominator(py, ky, 65536);
    lemma_hoist_over_denominator(pz, kz, 65536);
    lemma_hoist_over_denominator(pw, kw, 65536);
    assert(qx / 65536 == px / 65536 + kx);
    assert(qy / 65536 == py / 65536 + ky);
    assert(qz / 65536 == pz / 65536 + kz);
    assert(qw / 65536 == pw / 65536 + kw);
    lemma_mod_multiples_vanish(kx, px, 65536);
    lemma_mod_multiples_vanish(ky, py, 65536);
    lemma_mod_multiples_vanish(kz, pz, 65536);
    lemma_mod_multiples_vanish(kw, pw, 65536);
    assert(qx % 65536 == px % 65536);
    assert(qy % 65536 == py % 65536);
    assert(qz % 65536 == pz % 65536);
    assert(qw % 65536 == pw % 65536);
    vstd::arithmetic::mul::lemma_mul_is_commutative(ax, period);
    vstd::arithmetic::mul::lemma_mul_is_commutative(ay, period);
    vstd::arithmetic::mul::lemma_mul_is_commutative(az, period);
    vstd::arithmetic::mul::lemma_mul_is_commutative(aw, period);
    lemma_mod_multiples_vanish(ax, px / 65536, period);
    lemma_mod_multiples_vanish(ay, py / 65536, period);
    lemma_mod_multiples_vanish(az, pz / 65536, period);
    lemma_mod_multiples_vanish(aw, pw / 65536, period);
    lemma_mod_multiples_vanish(ax, px / 65536 + 1, period);
    lemma_mod_multiples_vanish(ay, py / 65536 + 1, period);
    lemma_mod_multiples_vanish(az, pz / 65536 + 1, period);
    lemma_mod_multiples_vanish(aw, pw / 65536 + 1, period);
    assert((qx / 65536) % period == (px / 65536) % period);
    assert((qy / 65536) % period == (py / 65536) % period);
    assert((qz / 65536) % period == (pz / 65536) % period);
    assert((qw / 65536) % period == (pw / 65536) % period);
    assert((qx / 65536 + 1) % period == (px / 65536 + 1) % period);
    assert((qy / 65536 + 1) % period == (py / 65536 + 1) % period);
    assert((qz / 65536 + 1) % period == (pz / 65536 + 1) % period);
    assert((qw / 65536 + 1) % period == (pw / 65536 + 1) % period);
}

/// At the origin every 4-dimensional sample is exactly zero.
pub proof fn lemma_perlin4_origin_zero(t: Seq<u8>, enable: bool, period: int)
    ensures
        perlin4_spec(t, enable, period, 0, 0, 0, 0) == 0,
{
    reveal(surflet4_spec);
    lemma_zero_mul_div();
    assert(0int / 65536 == 0);
    assert(0int % 65536 == 0) by {
        vstd::arithmetic::div_mod::lemma_small_mod(0, 65536);
    }
    assert(fx_mul_spec(-65536, -65536) == 65536) by {
        assert((-65536) * (-65536) == 65536 * 65536);
        vstd::arithmetic::div_mod::lemma_div_multiples_vanish(65536, 65536);
    }
}

/// A zero factor gives a zero scaled product.
pub proof fn lemma_zero_mul_div()
    ensures
        forall|x: int| #[trigger] fx_mul_spec(0, x) == 0,
        forall|x: int| #[trigger] fx_mul_spec(x, 0) == 0,
{
    vstd::arithmetic::div_mod::lemma_div_of0(65536);
    assert forall|x: int| #[trigger] fx_mul_spec(0, x) == 0 by {
        assert(0 * x == 0);
    }
    assert forall|x: int| #[trigger] fx_mul_spec(x, 0) == 0 by {
        assert(x * 0 == 0);
    }
}

} // verus!
