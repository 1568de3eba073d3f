use noise::fixed::FX_ONE;
use noise::NoiseModule;
use noise::{Abs, Perlin, PermutationTable, RidgedMulti, Sum, Turbulence};

/// Fixed-point product, as the library computes it: the scaled product,
/// rounded toward negative infinity.
fn fx(a: i64, b: i64) -> i64 {
    (((a as i128) * (b as i128)) >> 16) as i64
}

#[test]
fn perm_table_is_permutation() {
    for seed in [0u32, 1, 2, 12345, 0xFFFF_FFFF] {
        let t: PermutationTable = PermutationTable::new(seed);
        assert_eq!(t.values.len(), 256);
        let mut seen: Vec<bool> = vec![false; 256];
        for &v in t.values.iter() {
            assert!(!seen[v as usize], "duplicate entry for seed {}", seed);
            seen[v as usize] = true;
        }
        assert!(seen.iter().all(|&b| b));
    }
}

#[test]
fn perm_table_deterministic() {
    let a: PermutationTable = PermutationTable::new(12345);
    let b: PermutationTable = PermutationTable::new(12345);
    assert_eq!(a.values, b.values);
    let t0: PermutationTable = PermutationTable::new(0);
    assert_eq!(&t0.values[..4], &[87u8, 136, 243, 224]);
}

#[test]
fn perlin_origin_zero() {
    let p: Perlin = Perlin::new();
    assert_eq!(p.get([0i64, 0]), 0);
    assert_eq!(p.get([0i64, 0, 0]), 0);
    assert_eq!(p.get([0i64, 0, 0, 0]), 0);
    let q: Perlin = Perlin::new().set_seed(77).set_period(9);
    assert_eq!(q.get([0i64, 0]), 0);
    assert_eq!(q.get([0i64, 0, 0]), 0);
    assert_eq!(q.get([0i64, 0, 0, 0]), 0);
}

#[test]
fn perlin_known_values() {
    let p: Perlin = Perlin::new();
    assert_eq!(p.get([98304i64, 32768]), -18319);
    assert_eq!(p.get([-40000i64, 123456]), 42587);
    assert_eq!(p.get([700001i64, -250000]), 18428);
    assert_eq!(p.get([123i64, 45678]), -9830);
    assert_eq!(p.get([888888i64, 777777]), 30207);
    assert_eq!(p.get([98304i64, 32768, 11111]), 8880);
    assert_eq!(p.get([98304i64, 32768, 11111, -22222]), -2753);
    let q: Perlin = Perlin::new().set_seed(1);
    assert_eq!(q.get([98304i64, 32768]), -4);
    assert_eq!(q.seed, 1);
}

#[test]
fn perlin_determinism() {
    let a: Perlin = Perlin::new().set_seed(42);
    let b: Perlin = Perlin::new().set_seed(42);
    let pts: [[i64; 2]; 4] = [[98304, 32768], [-40000, 123456], [1, 2], [-65536, 65536]];
    for p in pts {
        assert_eq!(a.get(p), b.get(p));
        assert_eq!(a.get(p), a.get(p));
    }
    assert_eq!(a.get([7i64, 8, 9]), b.get([7i64, 8, 9]));
    assert_eq!(a.get([7i64, 8, 9, 10]), b.get([7i64, 8, 9, 10]));
}

#[test]
fn perlin_seed_sensitivity() {
    let a: Perlin = Perlin::new();
    let b: Perlin = Perlin::new().set_seed(1);
    let pts: [[i64; 2]; 5] = [
        [98304, 32768],
        [-40000, 123456],
        [700001, -250000],
        [123, 45678],
        [888888, 777777],
    ];
    let differing: usize = pts.iter().filter(|&&p| a.get(p) != b.get(p)).count();
    assert!(differing >= 4, "only {} of 5 sample points differ", differing);
}

#[test]
fn perlin_periodic_tiling() {
    let k: i64 = 5;
    let p: Perlin = Perlin::new().set_period(5);
    let base: i64 = p.get([12345i64, 67890]);
    assert_eq!(base, 35242);
    assert_eq!(p.get([12345 + k * FX_ONE, 67890]), base);
    assert_eq!(p.get([12345i64, 67890 + k * FX_ONE]), base);
    assert_eq!(p.get([12345 - 3 * k * FX_ONE, 67890 + 2 * k * FX_ONE]), base);
    let q: Perlin = Perlin::new().set_period(3);
    let k3: i64 = 3 * FX_ONE;
    let b3: i64 = q.get([12345i64, -67890, 99999]);
    assert_eq!(q.get([12345i64, -67890 + k3, 99999]), b3);
    assert_eq!(q.get([12345 + k3, -67890, 99999 - k3]), b3);
    let b4: i64 = q.get([12345i64, -67890, 99999, 54321]);
    assert_eq!(q.get([12345i64, -67890, 99999, 54321 + k3]), b4);
    assert_eq!(q.get([12345 - k3, -67890 + k3, 99999, 54321]), b4);
}

#[test]
fn perlin_continuity_at_boundary() {
    let p: Perlin = Perlin::new();
    // One step of the fixed-point grid changes the sample by almost
    // nothing, also exactly at integer lattice coordinates.
    for x in [0i64, FX_ONE, 2 * FX_ONE, -FX_ONE] {
        let a: i64 = p.get([x - 1, 20000]);
        let b: i64 = p.get([x, 20000]);
        let c: i64 = p.get([x + 1, 20000]);
        assert!((a - b).abs() <= 16, "jump below lattice coordinate {}", x);
        assert!((c - b).abs() <= 16, "jump above lattice coordinate {}", x);
    }
    for &(x, y) in &[(12345i64, 67890i64), (-98765, 4321), (272144, -123456)] {
        let a: i64 = p.get([x, y]);
        let b: i64 = p.get([x + 1, y]);
        let c: i64 = p.get([x, y + 1]);
        assert!((a - b).abs() <= 64);
        assert!((a - c).abs() <= 64);
    }
}

#[test]
fn ridged_default_known_values() {
    let m: RidgedMulti = RidgedMulti::new();
    assert_eq!(m.get([98304i64, 32768]), 55028);
    assert_eq!(m.get([-40000i64, 123456]), -50828);
    assert_eq!(m.get([700001i64, -250000]), 385);
    assert_eq!(m.get([123i64, 45678]), -46037);
    assert_eq!(m.get([888888i64, 777777]), -50602);
    assert_eq!(m.get([98304i64, 32768, 11111]), -17198);
    assert_eq!(m.get([98304i64, 32768, 11111, -22222]), -42197);
}

#[test]
fn ridged_grid_bounds() {
    // With default parameters a dense grid of samples stays within one
    // unit either side of zero.
    let m: RidgedMulti = RidgedMulti::new();
    for i in -12i64..=12 {
        for j in -12i64..=12 {
            let v: i64 = m.get([i * FX_ONE / 4, j * FX_ONE / 4]);
            assert!(-FX_ONE <= v && v <= FX_ONE, "out of range at ({}, {}): {}", i, j, v);
        }
    }
}

#[test]
fn ridged_octave_clamp() {
    let m: RidgedMulti = RidgedMulti::new();
    assert_eq!(m.clone().set_octaves(0).octaves, 1);
    assert_eq!(m.clone().set_octaves(1000).octaves, 32);
    assert_eq!(m.clone().set_octaves(7).octaves, 7);
    // Setting the count it already holds leaves the source sequence
    // unchanged, observable through unchanged output.
    let same: RidgedMulti = m.clone().set_octaves(6);
    let pts: [[i64; 2]; 3] = [[98304, 32768], [-40000, 123456], [123, 45678]];
    for p in pts {
        assert_eq!(same.get(p), m.get(p));
    }
    // A genuinely different count changes the field and (generally) the output.
    let fewer: RidgedMulti = m.clone().set_octaves(1);
    assert_eq!(fewer.octaves, 1);
    assert!(pts.iter().any(|&p| fewer.get(p) != m.get(p)));
}

#[test]
fn ridged_single_octave_formula() {
    // One octave with persistence 1, gain 2, lacunarity 2, frequency 1
    // equals the single-octave formula applied to that octave's kernel.
    let m: RidgedMulti = RidgedMulti::new().set_octaves(1);
    let p: [i64; 2] = [98304, 32768];
    let s: i64 = Perlin::new().get(p);
    let folded: i64 = FX_ONE - s.abs();
    let sharp: i64 = fx(folded, folded);
    let expected: i64 = fx(sharp, 21845) - FX_ONE;
    assert_eq!(m.get(p), expected);
    assert_eq!(m.get(p), -54197);
}

#[test]
fn ridged_periodic_tiling() {
    let m: RidgedMulti = RidgedMulti::new().set_octaves(4).set_period(5);
    let base: i64 = m.get([12345i64, 67890]);
    assert_eq!(base, -44805);
    assert_eq!(m.get([12345 + 5 * FX_ONE, 67890]), base);
    assert_eq!(m.get([12345i64, 67890 + 5 * FX_ONE]), base);
}

#[test]
fn ridged_setters_are_pure() {
    let m: RidgedMulti = RidgedMulti::new();
    let changed: RidgedMulti = m.clone().set_seed(9).set_frequency(2 * FX_ONE).set_gain(FX_ONE);
    assert_eq!(m.seed, 0);
    assert_eq!(m.frequency, FX_ONE);
    assert_eq!(changed.seed, 9);
    assert_eq!(changed.frequency, 2 * FX_ONE);
    assert_eq!(changed.gain, FX_ONE);
    assert_eq!(changed.octaves, m.octaves);
    let p: RidgedMulti = m.clone().set_persistence(FX_ONE / 2).set_lacunarity(3 * FX_ONE);
    assert_eq!(p.persistence, FX_ONE / 2);
    assert_eq!(p.lacunarity, 3 * FX_ONE);
}

#[test]
fn perlin_set_period_clamps() {
    let a: Perlin = Perlin::new().set_period(0);
    assert_eq!(a.period, 1);
    let b: Perlin = Perlin::new().set_period(usize::MAX);
    assert_eq!(b.period, 0x4000_0000);
    let c: Perlin = Perlin::new().set_period(77);
    assert_eq!(c.period, 77);
}

#[test]
fn abs_modifier() {
    let p: Perlin = Perlin::new();
    let a: Abs<Perlin> = Abs::new(Perlin::new());
    let pt: [i64; 2] = [98304, 32768];
    assert_eq!(p.get(pt), -18319);
    assert_eq!(a.get(pt), 18319);
    assert_eq!(a.get([0i64, 0]), 0);
    assert_eq!(a.get([98304i64, 32768, 11111]), 8880);
}

#[test]
fn ridged_source_schedule() {
    // Non-periodic: octave i is seeded seed + i with the default period.
    let m: RidgedMulti = RidgedMulti::new().set_seed(40).set_octaves(3);
    assert_eq!(m.sources.len(), 3);
    for (i, s) in m.sources.iter().enumerate() {
        assert_eq!(s.seed, 40 + i);
        assert_eq!(s.period, 256);
        assert!(!s.enable_period);
    }
    // Periodic: the per-octave period scales by the lacunarity, and a
    // period request below one is clipped up to one.
    let p: RidgedMulti = m.clone().set_period(5);
    let periods: Vec<usize> = p.sources.iter().map(|s| s.period).collect();
    assert_eq!(periods, vec![5, 10, 20]);
    assert!(p.sources.iter().all(|s| s.enable_period));
    let p3: RidgedMulti = p.clone().set_lacunarity(3 * FX_ONE);
    let periods3: Vec<usize> = p3.sources.iter().map(|s| s.period).collect();
    assert_eq!(periods3, vec![5, 15, 45]);
    let tiny: RidgedMulti = m.clone().set_period(0);
    assert!(tiny.sources.iter().all(|s| s.period >= 1));
}

#[test]
fn turbulence_warps_the_point() {
    // With frequency and power of one unit, the output is the source
    // sampled at the point displaced by the axis kernels' samples.
    let t: Turbulence<Perlin> = Turbulence::new(Perlin::new().set_seed(9));
    let src: Perlin = Perlin::new().set_seed(9);
    let pt: [i64; 2] = [98304, 32768];
    let dx: i64 = Perlin::new().set_seed(0).get(pt);
    let dy: i64 = Perlin::new().set_seed(1).get(pt);
    assert_eq!(t.get(pt), src.get([pt[0] + dx, pt[1] + dy]));
    let pt3: [i64; 3] = [98304, 32768, 11111];
    let d3x: i64 = Perlin::new().set_seed(0).get(pt3);
    let d3y: i64 = Perlin::new().set_seed(1).get(pt3);
    let d3z: i64 = Perlin::new().set_seed(2).get(pt3);
    assert_eq!(t.get(pt3), src.get([pt3[0] + d3x, pt3[1] + d3y, pt3[2] + d3z]));
}

#[test]
fn turbulence_power_zero_is_identity() {
    let t: Turbulence<Perlin> = Turbulence::new(Perlin::new()).set_power(0);
    let p: Perlin = Perlin::new();
    for pt in [[98304i64, 32768], [-40000, 123456], [123, 45678]] {
        assert_eq!(t.get(pt), p.get(pt));
    }
    assert_eq!(t.get([7i64, 8, 9, 10]), p.get([7i64, 8, 9, 10]));
}

#[test]
fn turbulence_setters() {
    let t: Turbulence<Perlin> = Turbulence::new(Perlin::new())
        .set_seed(5)
        .set_frequency(2 * FX_ONE)
        .set_power(FX_ONE / 4);
    assert_eq!(t.seed, 5);
    assert_eq!(t.x_distort.seed, 5);
    assert_eq!(t.y_distort.seed, 6);
    assert_eq!(t.z_distort.seed, 7);
    assert_eq!(t.w_distort.seed, 8);
    assert_eq!(t.frequency, 2 * FX_ONE);
    assert_eq!(t.power, FX_ONE / 4);
    let periodic: Turbulence<Perlin> = t.set_period(11);
    assert_eq!(periodic.x_distort.period, 11);
    assert!(periodic.w_distort.enable_period);
}

#[test]
fn sum_modifier() {
    let s: Sum<Perlin, Perlin> = Sum::new(Perlin::new(), Perlin::new().set_seed(1));
    let pt: [i64; 2] = [98304, 32768];
    assert_eq!(s.get(pt), -18323);
    let nested: Sum<Abs<Perlin>, Perlin> = Sum::new(Abs::new(Perlin::new()), Perlin::new());
    assert_eq!(nested.get(pt), 0);
}
