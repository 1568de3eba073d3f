//! The fractal-combinator skeleton: an ordered sequence of independently
//! seeded base-kernel instances ("octaves"), one per layer of detail.
//!
//! Octave `i` is seeded with `seed + i` (wrapping), and, when periodic
//! wrap-around is wanted, carries a period scaled by `lacunarity^i`: the
//! evaluation scales the frequency the same way, so the wrap distance must
//! scale identically to stay seamless.

use vstd::prelude::*;
use crate::fixed::fx_mul_spec;
use crate::fixed::fx_mul;
use crate::perlin::{clamp_period, Perlin, DEFAULT_PERLIN_PERIOD, MAX_PERIOD};

verus! {

/// The sum of two seeds, wrapping around the `usize` range.
pub open spec fn wrap_add_spec(a: usize, b: usize) -> usize {
    if a + b > usize::MAX {
        (a + b - usize::MAX - 1) as usize
    } else {
        (a + b) as usize
    }
}

/// Adds two seeds, wrapping around the `usize` range.
pub fn wrap_add(a: usize, b: usize) -> (r: usize)
    ensures
        r == wrap_add_spec(a, b),
{
    if a > usize::MAX - b {
        a - (usize::MAX - b) - 1
    } else {
        a + b
    }
}

/// What octave `i` of a non-periodic source sequence holds: a well-formed
/// kernel seeded `seed + i`, default period, wrap-around off.
pub open spec fn source_ok(p: Perlin, seed: usize, i: int) -> bool {
    &&& p.seed == wrap_add_spec(seed, i as usize)
    &&& p.period == DEFAULT_PERLIN_PERIOD
    &&& !p.enable_period
    &&& p.well_formed()
}

/// The period octave `i` of a periodic source sequence carries: the
/// requested period, scaled by `lacunarity` once per octave, each step
/// clipped into the accepted range.
pub open spec fn period_at(p0: int, lac: int, i: nat) -> int
    decreases i,
{
    if i == 0 {
        clamp_period(p0)
    } else {
        clamp_period(fx_mul_spec(period_at(p0, lac, (i - 1) as nat), lac))
    }
}

/// With a doubling lacunarity and no clipping in reach, the period
/// schedule is exactly the requested period scaled by `2^i`.
pub proof fn lemma_period_at_doubling(p0: int, i: nat)
    requires
        1 <= p0,
        p0 * vstd::arithmetic::power2::pow2(i) <= 0x4000_0000,
    ensures
        period_at(p0, 131072, i) == p0 * vstd::arithmetic::power2::pow2(i),
    decreases i,
{
    vstd::arithmetic::power2::lemma_pow2_pos(i);
    if i == 0 {
        assert(vstd::arithmetic::power2::pow2(0) == 1) by {
            vstd::arithmetic::power2::lemma2_to64();
        }
    } else {
        let prev = vstd::arithmetic::power2::pow2((i - 1) as nat);
        assert(vstd::arithmetic::power2::pow2(i) == 2 * prev) by {
            vstd::arithmetic::power2::lemma_pow2_unfold(i);
        }
        vstd::arithmetic::power2::lemma_pow2_pos((i - 1) as nat);
        assert(p0 * prev >= 1 && 2 * (p0 * prev) == p0 * (2 * prev)) by (nonlinear_arith)
            requires
                1 <= p0,
                1 <= prev,
        ;
        lemma_period_at_doubling(p0, (i - 1) as nat);
        crate::fixed::lemma_fx_mul_double(p0 * prev);
    }
}

/// What octave `i` of a periodic source sequence holds: a well-formed
/// kernel seeded `seed + i`, wrap-around on, period following the
/// lacunarity-scaled schedule.
pub open spec fn source_ok_periodic(p: Perlin, seed: usize, i: int, p0: int, lac: int) -> bool {
    &&& p.seed == wrap_add_spec(seed, i as usize)
    &&& p.enable_period
    &&& p.period as int == period_at(p0, lac, i as nat)
    &&& p.well_formed()
}

/// Builds the source sequence for a non-periodic fractal: `octaves`
/// kernels, octave `i` seeded `seed + i`.
pub fn build_sources(seed: usize, octaves: usize) -> (v: Vec<Perlin>)
    ensures
        v@.len() == octaves,
        forall|i: int| 0 <= i < octaves ==> source_ok(#[trigger] v@[i], seed, i),
{
    let mut sources: Vec<Perlin> = Vec::new();
    let mut x: usize = 0;
    while x < octaves
        invariant
            x <= octaves,
            sources@.len() == x,
            forall|i: int| 0 <= i < x ==> source_ok(#[trigger] sources@[i], seed, i),
        decreases octaves - x,
    {
        sources.push(Perlin::new().set_seed(wrap_add(seed, x)));
        x = x + 1;
    }
    sources
}

/// Builds the source sequence for a periodic fractal: octave `i` is seeded
/// `seed + i` and wraps at the lacunarity-scaled period.
pub fn build_sources_periodic(seed: usize, octaves: usize, period: usize, lacunarity: i64) -> (v:
    Vec<Perlin>)
    ensures
        v@.len() == octaves,
        forall|i: int| 0 <= i < octaves ==> source_ok_periodic(
            #[trigger] v@[i],
            seed,
            i,
            period as int,
            lacunarity as int,
        ),
{
    let mut cur: usize = if period < 1 {
        1
    } else if period > MAX_PERIOD {
        MAX_PERIOD
    } else {
        period
    };
    let mut sources: Vec<Perlin> = Vec::new();
    let mut x: usize = 0;
    while x < octaves
        invariant
            x <= octaves,
            sources@.len() == x,
            cur as int == period_at(period as int, lacunarity as int, x as nat),
            1 <= cur <= MAX_PERIOD,
            forall|i: int| 0 <= i < x ==> source_ok_periodic(
                #[trigger] sources@[i],
                seed,
                i,
                period as int,
                lacunarity as int,
            ),
        decreases octaves - x,
    {
        sources.push(Perlin::new().set_seed(wrap_add(seed, x)).set_period(cur));
        let next: i64 = fx_mul(cur as i64, lacunarity);
        cur = if next < 1 {
            1
        } else if next > 0x4000_0000 {
            MAX_PERIOD
        } else {
            next as usize
        };
        x = x + 1;
    }
    sources
}

} // verus!
