//! The gradient sets: small, fixed tables of direction vectors per
//! dimension, well distributed on the (hyper)sphere, selected by reducing a
//! hash value modulo the set size.
//!
//! Components are fixed-point: `65536` is `1.0`, `46341` is `1/sqrt(2)`,
//! `37837` is `1/sqrt(3)`, so every vector has length close to one.

use vstd::prelude::*;
use vstd::arithmetic::div_mod::lemma_mod_division_less_than_divisor;
use crate::fixed::abs_int;

verus! {

/// The 2-dimensional gradient set: the four axis directions and the four
/// diagonals, indexed by the hash modulo 8.
pub open spec fn grad2_spec(h: int) -> (int, int) {
    let k = h % 8;
    if k == 0 {
        (65536, 0)
    } else if k == 1 {
        (-65536, 0)
    } else if k == 2 {
        (0, 65536)
    } else if k == 3 {
        (0, -65536)
    } else if k == 4 {
        (46341, 46341)
    } else if k == 5 {
        (-46341, 46341)
    } else if k == 6 {
        (46341, -46341)
    } else {
        (-46341, -46341)
    }
}

/// The 3-dimensional gradient set: the twelve cube-edge directions,
/// indexed by the hash modulo 12.
pub open spec fn grad3_spec(h: int) -> (int, int, int) {
    let k = h % 12;
    if k == 0 {
        (46341, 46341, 0)
    } else if k == 1 {
        (-46341, 46341, 0)
    } else if k == 2 {
        (46341, -46341, 0)
    } else if k == 3 {
        (-46341, -46341, 0)
    } else if k == 4 {
        (46341, 0, 46341)
    } else if k == 5 {
        (-46341, 0, 46341)
    } else if k == 6 {
        (46341, 0, -46341)
    } else if k == 7 {
        (-46341, 0, -46341)
    } else if k == 8 {
        (0, 46341, 46341)
    } else if k == 9 {
        (0, -46341, 46341)
    } else if k == 10 {
        (0, 46341, -46341)
    } else {
        (0, -46341, -46341)
    }
}

/// The 4-dimensional gradient set: the thirty-two directions with one zero
/// component, indexed by the hash modulo 32.  The index picks the zero
/// position and the three signs.
pub open spec fn grad4_spec(h: int) -> (int, int, int, int) {
    let k = h % 32;
    let s0 = if k % 2 == 0 { 37837int } else { -37837int };
    let s1 = if (k / 2) % 2 == 0 { 37837int } else { -37837int };
    let s2 = if (k / 4) % 2 == 0 { 37837int } else { -37837int };
    if k < 8 {
        (0, s0, s1, s2)
    } else if k < 16 {
        (s0, 0, s1, s2)
    } else if k < 24 {
        (s0, s1, 0, s2)
    } else {
        (s0, s1, s2, 0)
    }
}

/// Every 2-dimensional gradient component has magnitude at most one unit.
pub proof fn lemma_grad2_bounds(h: int)
    ensures
        abs_int(grad2_spec(h).0) <= 65536,
        abs_int(grad2_spec(h).1) <= 65536,
{
}

/// Every 3-dimensional gradient component has magnitude at most one unit.
pub proof fn lemma_grad3_bounds(h: int)
    ensures
        abs_int(grad3_spec(h).0) <= 65536,
        abs_int(grad3_spec(h).1) <= 65536,
        abs_int(grad3_spec(h).2) <= 65536,
{
}

/// Every 4-dimensional gradient component has magnitude at most one unit.
pub proof fn lemma_grad4_bounds(h: int)
    ensures
        abs_int(grad4_spec(h).0) <= 65536,
        abs_int(grad4_spec(h).1) <= 65536,
        abs_int(grad4_spec(h).2) <= 65536,
        abs_int(grad4_spec(h).3) <= 65536,
{
}

/// Looks up a 2-dimensional gradient by hash value.
pub fn get2(h: u8) -> (g: (i64, i64))
    ensures
        g.0 as int == grad2_spec(h as int).0,
        g.1 as int == grad2_spec(h as int).1,
{
    let k: u8 = h % 8;
    if k == 0 {
        (65536, 0)
    } else if k == 1 {
        (-65536, 0)
    } else if k == 2 {
        (0, 65536)
    } else if k == 3 {
        (0, -65536)
    } else if k == 4 {
        (46341, 46341)
    } else if k == 5 {
        (-46341, 46341)
    } else if k == 6 {
        (46341, -46341)
    } else {
        (-46341, -46341)
    }
}

/// Looks up a 3-dimensional gradient by hash value.
pub fn get3(h: u8) -> (g: (i64, i64, i64))
    ensures
        g.0 as int == grad3_spec(h as int).0,
        g.1 as int == grad3_spec(h as int).1,
        g.2 as int == grad3_spec(h as int).2,
{
    let k: u8 = h % 12;
    if k == 0 {
        (46341, 46341, 0)
    } else if k == 1 {
        (-46341, 46341, 0)
    } else if k == 2 {
        (46341, -46341, 0)
    } else if k == 3 {
        (-46341, -46341, 0)
    } else if k == 4 {
        (46341, 0, 46341)
    } else if k == 5 {
        (-46341, 0, 46341)
    } else if k == 6 {
        (46341, 0, -46341)
    } else if k == 7 {
        (-46341, 0, -46341)
    } else if k == 8 {
        (0, 46341, 46341)
    } else if k == 9 {
        (0, -46341, 46341)
    } else if k == 10 {
        (0, 46341, -46341)
    } else {
        (0, -46341, -46341)
    }
}

/// Looks up a 4-dimensional gradient by hash value.
pub fn get4(h: u8) -> (g: (i64, i64, i64, i64))
    ensures
        g.0 as int == grad4_spec(h as int).0,
        g.1 as int == grad4_spec(h as int).1,
        g.2 as int == grad4_spec(h as int).2,
        g.3 as int == grad4_spec(h as int).3,
{
    let k: u8 = h % 32;
    proof {
        lemma_mod_division_less_than_divisor(h as int, 32);
        lemma_mod_division_less_than_divisor(h as int % 32, 2);
        lemma_mod_division_less_than_divisor(h as int % 32 / 2, 2);
        lemma_mod_division_less_than_divisor(h as int % 32 / 4, 2);
    }
    let s0: i64 = if k % 2 == 0 { 37837 } else { -37837 };
    let s1: i64 = if (k / 2) % 2 == 0 { 37837 } else { -37837 };
    let s2: i64 = if (k / 4) % 2 == 0 { 37837 } else { -37837 };
    if k < 8 {
        (0, s0, s1, s2)
    } else if k < 16 {
        (s0, 0, s1, s2)
    } else if k < 24 {
        (s0, s1, 0, s2)
    } else {
        (s0, s1, s2, 0)
    }
}

} // verus!
