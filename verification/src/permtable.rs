//! The seeded lookup table: a permutation of `0..=255`, derived
//! deterministically from an integer seed, used to hash integer lattice
//! coordinates to an index into a gradient set.
//!
//! The seed feeds a xorshift generator that drives a Fisher-Yates shuffle
//! of the identity table; equal seeds give bit-identical tables.  Hashing
//! chains per-axis lookups: each step re-indexes the table by the sum of
//! the previous result and the next axis value, modulo the table size.

use vstd::prelude::*;
use vstd::arithmetic::div_mod::{lemma_add_mod_noop_right, lemma_mod_division_less_than_divisor};
use crate::fixed::emod_i64;

verus! {

/// The identity table: entry `i` holds `i`.
pub open spec fn identity_table() -> Seq<u8> {
    Seq::new(256, |i: int| i as u8)
}

/// A well-formed table has 256 entries and contains every byte value, so it
/// is a permutation of `0..=255`.
pub open spec fn table_wf(t: Seq<u8>) -> bool {
    &&& t.len() == 256
    &&& forall|v: u8| t.contains(v)
}

/// The table with the entries at `i` and `j` exchanged.
pub open spec fn swap_seq(t: Seq<u8>, i: int, j: int) -> Seq<u8> {
    t.update(i, t[j]).update(j, t[i])
}

/// One step of the xorshift generator that drives the shuffle.
pub open spec fn xs_step(s: u64) -> u64 {
    let a = s ^ (s << 13);
    let b = a ^ (a >> 7);
    b ^ (b << 17)
}

/// The generator's start state: odd, so never zero, and distinct for
/// distinct seeds.
pub open spec fn seed_state(seed: u32) -> u64 {
    ((seed as int) * 2 + 1) as u64
}

/// The Fisher-Yates shuffle, walking `i` down to 1: draw a fresh generator
/// value, pick `j` in `0..=i`, exchange the entries at `i` and `j`.
pub open spec fn shuffle_rec(t: Seq<u8>, s: u64, i: nat) -> Seq<u8>
    decreases i,
{
    if i == 0 {
        t
    } else {
        let s2 = xs_step(s);
        let j = (s2 as int) % (i as int + 1);
        shuffle_rec(swap_seq(t, i as int, j), s2, (i - 1) as nat)
    }
}

/// The table a given seed builds.
pub open spec fn spec_build_table(seed: u32) -> Seq<u8> {
    shuffle_rec(identity_table(), seed_state(seed), 255)
}

/// Exchanging two entries keeps the table a permutation.
proof fn lemma_swap_preserves_wf(t: Seq<u8>, i: int, j: int)
    requires
        table_wf(t),
        0 <= i < 256,
        0 <= j < 256,
    ensures
        table_wf(swap_seq(t, i, j)),
{
    let t2 = swap_seq(t, i, j);
    assert forall|v: u8| t2.contains(v) by {
        assert(t.contains(v));
        let k = choose|k: int| 0 <= k < t.len() && t[k] == v;
        if k == i {
            assert(t2[j] == v);
        } else if k == j {
            assert(t2[i] == v);
        } else {
            assert(t2[k] == v);
        }
    }
}

/// The shuffle keeps the table a permutation.
proof fn lemma_shuffle_preserves_wf(t: Seq<u8>, s: u64, i: nat)
    requires
        table_wf(t),
        i <= 255,
    ensures
        table_wf(shuffle_rec(t, s, i)),
    decreases i,
{
    if i != 0 {
        let s2 = xs_step(s);
        let j = (s2 as int) % (i as int + 1);
        lemma_mod_division_less_than_divisor(s2 as int, i as int + 1);
        lemma_swap_preserves_wf(t, i as int, j);
        lemma_shuffle_preserves_wf(swap_seq(t, i as int, j), s2, (i - 1) as nat);
    }
}

/// Every seed builds a permutation of `0..=255`.
pub proof fn lemma_build_table_wf(seed: u32)
    ensures
        table_wf(spec_build_table(seed)),
{
    let ident = identity_table();
    assert forall|v: u8| ident.contains(v) by {
        assert(ident[v as int] == v);
    }
    lemma_shuffle_preserves_wf(ident, seed_state(seed), 255);
}

/// The entry the table holds for an arbitrary integer, reduced modulo the
/// table size.
pub open spec fn table_at(t: Seq<u8>, v: int) -> int {
    t[v % 256] as int
}

/// The hash of a 2-dimensional lattice coordinate: chained lookups.
pub open spec fn hash2_spec(t: Seq<u8>, x: int, y: int) -> int {
    table_at(t, table_at(t, x) + y)
}

/// The hash of a 3-dimensional lattice coordinate.
pub open spec fn hash3_spec(t: Seq<u8>, x: int, y: int, z: int) -> int {
    table_at(t, hash2_spec(t, x, y) + z)
}

/// The hash of a 4-dimensional lattice coordinate.
pub open spec fn hash4_spec(t: Seq<u8>, x: int, y: int, z: int, w: int) -> int {
    table_at(t, hash3_spec(t, x, y, z) + w)
}

/// A seeded lookup table; immutable once built.
#[derive(Clone, Debug)]
pub struct PermutationTable {
    /// The permutation of `0..=255`.
    pub values: Vec<u8>,
}

/// One step of the xorshift generator.
fn xs_next(s: u64) -> (r: u64)
    ensures
        r == xs_step(s),
{
    let a: u64 = s ^ (s << 13);
    let b: u64 = a ^ (a >> 7);
    b ^ (b << 17)
}

impl PermutationTable {
    /// Builds the table a seed determines: the identity table shuffled by
    /// the seeded generator.  Total: every seed is valid.
    pub fn new(seed: u32) -> (t: PermutationTable)
        ensures
            t.values@ == spec_build_table(seed),
            table_wf(t.values@),
    {
        let mut values: Vec<u8> = Vec::new();
        let mut k: usize = 0;
        while k < 256
            invariant
                k <= 256,
                values@.len() == k,
                forall|m: int| 0 <= m < k ==> values@[m] == m as u8,
            decreases 256 - k,
        {
            values.push(k as u8);
            k = k + 1;
        }
        assert(values@ =~= identity_table());
        let mut state: u64 = (seed as u64) * 2 + 1;
        let mut i: usize = 255;
        while i >= 1
            invariant
                i <= 255,
                values@.len() == 256,
                shuffle_rec(values@, state, i as nat) == spec_build_table(seed),
            decreases i,
        {
            state = xs_next(state);
            let j: usize = (state % (i as u64 + 1)) as usize;
            proof {
                lemma_mod_division_less_than_divisor(state as int, i as int + 1);
            }
            let ghost old_values = values@;
            let vi: u8 = values[i];
            let vj: u8 = values[j];
            values[i] = vj;
            values[j] = vi;
            proof {
                assert(values@ =~= swap_seq(old_values, i as int, j as int));
            }
            i = i - 1;
        }
        proof {
            lemma_build_table_wf(seed);
        }
        PermutationTable { values }
    }

    /// Hashes a 2-dimensional lattice coordinate to a gradient index.
    pub fn get2(&self, corner: [i64; 2]) -> (r: u8)
        requires
            self.values@.len() == 256,
        ensures
            r as int == hash2_spec(self.values@, corner[0] as int, corner[1] as int),
    {
        let a: i64 = emod_i64(corner[0], 256);
        let va: u8 = self.values[a as usize];
        let ym: i64 = emod_i64(corner[1], 256);
        proof {
            lemma_add_mod_noop_right(va as int, corner[1] as int, 256);
        }
        let b: i64 = emod_i64(va as i64 + ym, 256);
        self.values[b as usize]
    }

    /// Hashes a 3-dimensional lattice coordinate to a gradient index.
    pub fn get3(&self, corner: [i64; 3]) -> (r: u8)
        requires
            self.values@.len() == 256,
        ensures
            r as int == hash3_spec(
                self.values@,
                corner[0] as int,
                corner[1] as int,
                corner[2] as int,
            ),
    {
        let h2: u8 = self.get2([corner[0], corner[1]]);
        let zm: i64 = emod_i64(corner[2], 256);
        proof {
            lemma_add_mod_noop_right(h2 as int, corner[2] as int, 256);
        }
        let b: i64 = emod_i64(h2 as i64 + zm, 256);
        self.values[b as usize]
    }

    /// Hashes a 4-dimensional lattice coordinate to a gradient index.
    pub fn get4(&self, corner: [i64; 4]) -> (r: u8)
        requires
            self.values@.len() == 256,
        ensures
            r as int == hash4_spec(
                self.values@,
                corner[0] as int,
                corner[1] as int,
                corner[2] as int,
                corner[3] as int,
            ),
    {
        let h3: u8 = self.get3([corner[0], corner[1], corner[2]]);
        let wm: i64 = emod_i64(corner[3], 256);
        proof {
            lemma_add_mod_noop_right(h3 as int, corner[3] as int, 256);
        }
        let b: i64 = emod_i64(h3 as i64 + wm, 256);
        self.values[b as usize]
    }
}

} // verus!
