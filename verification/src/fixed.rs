//! Fixed-point scalars: an `i64` holding a value scaled by 2^16.
//!
//! `65536` stands for `1.0`.  Products and sums saturate at the `i64`
//! range; everything else is exact.  Division by the scale rounds toward
//! negative infinity, so the fractional part of a coordinate is always in
//! `[0, 65536)`.

use vstd::prelude::*;
use vstd::arithmetic::div_mod::{
    lemma_div_is_ordered, lemma_fundamental_div_mod, lemma_mod_division_less_than_divisor,
};

verus! {

/// One whole unit: the fixed-point rendering of `1.0`.
pub const FX_ONE: i64 = 65536;

/// Clips a mathematical integer to the `i64` range.
pub open spec fn sat64(x: int) -> int {
    if x > i64::MAX as int {
        i64::MAX as int
    } else if x < i64::MIN as int {
        i64::MIN as int
    } else {
        x
    }
}

/// Magnitude of a mathematical integer.
pub open spec fn abs_int(x: int) -> int {
    if x < 0 {
        -x
    } else {
        x
    }
}

/// The fixed-point product: the scaled product, rounded toward negative
/// infinity, clipped to the `i64` range.
pub open spec fn fx_mul_spec(a: int, b: int) -> int {
    sat64((a * b) / 65536)
}

/// The fixed-point sum, clipped to the `i64` range.
pub open spec fn fx_add_spec(a: int, b: int) -> int {
    sat64(a + b)
}

/// A weight clipped into `[0, 1]` (fixed point: `[0, 65536]`).
pub open spec fn clamp01_spec(w: int) -> int {
    if w > 65536 {
        65536
    } else if w < 0 {
        0
    } else {
        w
    }
}

/// Fixed-point product of two scalars.
pub fn fx_mul(a: i64, b: i64) -> (r: i64)
    ensures
        r as int == fx_mul_spec(a as int, b as int),
{
    proof {
        assert(i128::MIN as int <= (a as int) * (b as int) <= i128::MAX as int)
            by (nonlinear_arith)
            requires
                i64::MIN as int <= a as int <= i64::MAX as int,
                i64::MIN as int <= b as int <= i64::MAX as int,
        ;
    }
    let wide: i128 = (a as i128) * (b as i128);
    proof {
        lemma_div_is_ordered(i128::MIN as int, wide as int, 65536);
        lemma_div_is_ordered(wide as int, i128::MAX as int, 65536);
        assert(i128::MIN as int / 65536 >= i128::MIN as int && i128::MAX as int / 65536
            <= i128::MAX as int) by (nonlinear_arith);
    }
    let q: i128 = wide.checked_div_euclid(65536).unwrap();
    if q > i64::MAX as i128 {
        i64::MAX
    } else if q < i64::MIN as i128 {
        i64::MIN
    } else {
        q as i64
    }
}

/// Fixed-point sum of two scalars.
pub fn fx_add(a: i64, b: i64) -> (r: i64)
    ensures
        r as int == fx_add_spec(a as int, b as int),
{
    let wide: i128 = (a as i128) + (b as i128);
    if wide > i64::MAX as i128 {
        i64::MAX
    } else if wide < i64::MIN as i128 {
        i64::MIN
    } else {
        wide as i64
    }
}

/// Clips a weight into `[0, 1]`.
pub fn fx_clamp01(w: i64) -> (r: i64)
    ensures
        r as int == clamp01_spec(w as int),
{
    if w > 65536 {
        65536
    } else if w < 0 {
        0
    } else {
        w
    }
}

/// Magnitude of a scalar, clipped to the `i64` range.
pub fn fx_abs(x: i64) -> (r: i64)
    ensures
        r as int == sat64(abs_int(x as int)),
{
    if x == i64::MIN {
        i64::MAX
    } else if x < 0 {
        -x
    } else {
        x
    }
}

/// Euclidean remainder: the representative of `v` modulo `m` in `[0, m)`.
pub fn emod_i64(v: i64, m: i64) -> (r: i64)
    requires
        1 <= m,
    ensures
        r as int == (v as int) % (m as int),
        0 <= r < m,
{
    proof {
        lemma_mod_division_less_than_divisor(v as int, m as int);
    }
    v.checked_rem_euclid(m).unwrap()
}

/// Splits a coordinate into its cell index (the floor, in whole units) and
/// its fractional part (in `[0, 65536)`).
pub fn fx_split(p: i64) -> (res: (i64, i64))
    ensures
        res.0 as int == (p as int) / 65536,
        res.1 as int == (p as int) % 65536,
        0 <= res.1 < 65536,
        p as int == res.0 * 65536 + res.1,
        -0x8000_0000_0000 <= res.0 <= 0x7FFF_FFFF_FFFF,
{
    proof {
        lemma_div_is_ordered(i64::MIN as int, p as int, 65536);
        lemma_div_is_ordered(p as int, i64::MAX as int, 65536);
        assert(i64::MIN as int / 65536 == -0x8000_0000_0000 && i64::MAX as int / 65536
            == 0x7FFF_FFFF_FFFF) by (nonlinear_arith);
        lemma_mod_division_less_than_divisor(p as int, 65536);
        lemma_fundamental_div_mod(p as int, 65536);
    }
    let q: i64 = p.checked_div_euclid(65536).unwrap();
    let r: i64 = p.checked_rem_euclid(65536).unwrap();
    (q, r)
}

/// The scaled product of values of magnitude at most `ba` and `bb` has
/// magnitude at most `ba * bb / 65536 + 1`, and never saturates while that
/// stays inside the `i64` range.
pub proof fn lemma_fx_mul_bounds(a: int, b: int, ba: int, bb: int)
    requires
        0 <= ba,
        0 <= bb,
        abs_int(a) <= ba,
        abs_int(b) <= bb,
        ba * bb / 65536 + 1 <= i64::MAX as int,
    ensures
        -(ba * bb / 65536) - 1 <= fx_mul_spec(a, b) <= ba * bb / 65536,
{
    assert(-(ba * bb) <= a * b <= ba * bb) by (nonlinear_arith)
        requires
            0 <= ba,
            0 <= bb,
            abs_int(a) <= ba,
            abs_int(b) <= bb,
    ;
    lemma_div_is_ordered(a * b, ba * bb, 65536);
    lemma_div_is_ordered(-(ba * bb), a * b, 65536);
    lemma_div_neg_bound(ba * bb, 65536);
}

/// Multiplying by one unit changes nothing.
pub proof fn lemma_fx_mul_one(a: int)
    requires
        i64::MIN as int <= a <= i64::MAX as int,
    ensures
        fx_mul_spec(a, 65536) == a,
{
    vstd::arithmetic::div_mod::lemma_div_multiples_vanish(a, 65536);
    assert(a * 65536 == 65536 * a);
}

/// The scaled product always lies in the `i64` range.
pub proof fn lemma_fx_mul_in_i64(a: int, b: int)
    ensures
        i64::MIN as int <= fx_mul_spec(a, b) <= i64::MAX as int,
        i64::MIN as int <= fx_add_spec(a, b) <= i64::MAX as int,
{
}

/// Multiplying by two units doubles, while the double stays representable.
pub proof fn lemma_fx_mul_double(x: int)
    requires
        i64::MIN as int <= 2 * x <= i64::MAX as int,
    ensures
        fx_mul_spec(x, 131072) == 2 * x,
{
    assert(x * 131072 == 65536 * (2 * x));
    vstd::arithmetic::div_mod::lemma_div_multiples_vanish(2 * x, 65536);
}

/// The scaled square of any scalar is nonnegative.
pub proof fn lemma_fx_mul_sq_nonneg(a: int)
    ensures
        0 <= fx_mul_spec(a, a),
{
    assert(0 <= a * a) by (nonlinear_arith);
    vstd::arithmetic::div_mod::lemma_div_pos_is_pos(a * a, 65536);
}

/// Dividing `-x` rounds down by at most one more step than negating `x / d`.
pub proof fn lemma_div_neg_bound(x: int, d: int)
    requires
        0 <= x,
        0 < d,
    ensures
        -(x / d) - 1 <= (-x) / d <= 0,
{
    lemma_fundamental_div_mod(-x, d);
    lemma_fundamental_div_mod(x, d);
    lemma_mod_division_less_than_divisor(-x, d);
    lemma_mod_division_less_than_divisor(x, d);
    assert(-(x / d) - 1 <= (-x) / d <= 0) by (nonlinear_arith)
        requires
            -x == d * ((-x) / d) + (-x) % d,
            x == d * (x / d) + x % d,
            0 <= (-x) % d < d,
            0 <= x % d < d,
            0 <= x,
            0 < d,
    ;
}

} // verus!
