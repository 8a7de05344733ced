use std::collections::HashSet;
use wgvb::hash::{
    domain, hash2, hash3, hash_n, DOM_BASIN, DOM_CONTINENTALNESS, DOM_MOISTURE,
    DOM_REGIONAL_ELEVATION, DOM_REGION_STYLE, DOM_RELIEF, DOM_RIDGE_ORIENTATION,
    DOM_TEMPERATURE, DOM_TERRAIN_DETAIL, DOM_VOLCANIC,
};

/// A deterministic sample of coordinates, including negatives and extremes.
fn sample_coords() -> Vec<(i64, i64)> {
    let mut out = Vec::new();
    for q in -8..=8_i64 {
        for r in -8..=8_i64 {
            out.push((q, r));
        }
    }
    for v in [
        i64::MIN,
        i64::MIN + 1,
        -1_000_000,
        0,
        1_000_000,
        i64::MAX - 1,
        i64::MAX,
    ] {
        out.push((v, 0));
        out.push((0, v));
        out.push((v, v));
    }
    // Deduplicated and sorted: the extremes overlap the grid at the origin,
    // and a collision test must not count a repeated input as a collision.
    out.sort_unstable();
    out.dedup();
    out
}

#[test]
fn domain_matches_fnv_1a_computed_independently() {
    // FNV-1a 64-bit offset basis 0xcbf29ce484222325, prime 0x100000001b3,
    // computed outside this crate.
    assert_eq!(domain(b""), 0xcbf2_9ce4_8422_2325);
    assert_eq!(DOM_CONTINENTALNESS, 0xe6a3_e327_f102_50f5);
    assert_eq!(DOM_REGIONAL_ELEVATION, 0xe3b0_ad5b_6320_39e6);
    assert_eq!(DOM_RELIEF, 0xfa18_9c4d_af36_7720);
    assert_eq!(DOM_MOISTURE, 0x4532_a032_9655_240f);
    assert_eq!(DOM_TEMPERATURE, 0x5565_75c1_ce10_7955);
    assert_eq!(DOM_TERRAIN_DETAIL, 0xa90f_24aa_e7b9_a828);
    assert_eq!(DOM_REGION_STYLE, 0x4115_6f2b_a1d9_a7d5);
    assert_eq!(DOM_RIDGE_ORIENTATION, 0x0f5b_ac88_66b1_037b);
    assert_eq!(DOM_BASIN, 0xd6e8_5182_6dfb_0aa6);
    assert_eq!(DOM_VOLCANIC, 0x3208_6c8b_90c6_35b8);
}

#[test]
fn every_domain_constant_is_distinct() {
    let all = all_domains();
    let unique: HashSet<u64> = all.iter().copied().collect();
    assert_eq!(unique.len(), all.len());
}

fn all_domains() -> Vec<u64> {
    vec![
        DOM_CONTINENTALNESS,
        DOM_REGIONAL_ELEVATION,
        DOM_RELIEF,
        DOM_MOISTURE,
        DOM_TEMPERATURE,
        DOM_TERRAIN_DETAIL,
        DOM_REGION_STYLE,
        DOM_RIDGE_ORIENTATION,
        DOM_BASIN,
        DOM_VOLCANIC,
    ]
}

#[test]
fn hashing_is_deterministic() {
    for (q, r) in sample_coords() {
        let first = hash2(0x1234_5678_9abc_def0, DOM_RELIEF, q, r);
        let second = hash2(0x1234_5678_9abc_def0, DOM_RELIEF, q, r);
        assert_eq!(first, second, "({q}, {r})");
    }
}

#[test]
fn hashing_is_a_const_expression() {
    // The mixer contains no floating point and no runtime dispatch: the same
    // inputs give the same bits, wherever they are evaluated.
    let h: u64 = hash2(7, DOM_BASIN, -3, 9);
    assert_eq!(h, hash2(7, DOM_BASIN, -3, 9));
}

#[test]
fn extreme_inputs_do_not_overflow_in_a_debug_build() {
    // The whole point of the wrapping-operation rule. A non-wrapping mixer
    // panics here rather than returning a wrong answer.
    for (q, r) in sample_coords() {
        for seed in [0, 1, u64::MAX, u64::MAX / 3] {
            for d in all_domains() {
                let _ = hash3(seed, d, q, r, q.wrapping_mul(r));
            }
        }
    }
}

#[test]
fn domains_separate_identical_inputs() {
    // Two systems sampling the same coordinate must not share a value, so a
    // change to one field's inputs cannot perturb another's output.
    let mut seen: HashSet<u64> = HashSet::new();
    let mut collisions = 0;
    for (q, r) in sample_coords() {
        for d in all_domains() {
            if !seen.insert(hash2(0xdead_beef, d, q, r)) {
                collisions += 1;
            }
        }
    }
    assert_eq!(collisions, 0, "domain-separated hashes collided");
}

#[test]
fn seeds_separate_identical_inputs() {
    let mut seen: HashSet<u64> = HashSet::new();
    for seed in 0..512_u64 {
        assert!(seen.insert(hash2(seed, DOM_MOISTURE, 3, -4)), "seed {seed}");
    }
}

#[test]
fn argument_order_and_arity_matter() {
    let s = 99;
    assert_ne!(
        hash2(s, DOM_TEMPERATURE, 1, 2),
        hash2(s, DOM_TEMPERATURE, 2, 1)
    );
    assert_ne!(
        hash_n(s, DOM_TEMPERATURE, [1_i64]),
        hash_n(s, DOM_TEMPERATURE, [1_i64, 0])
    );
    assert_ne!(
        hash_n::<0>(s, DOM_TEMPERATURE, []),
        hash_n(s, DOM_TEMPERATURE, [0_i64])
    );
}

#[test]
fn neighboring_coordinates_do_not_produce_neighboring_hashes() {
    // A weak mixer shows up as a visible lattice in generated terrain. Adjacent
    // coordinates must differ in roughly half their output bits.
    let mut total_bits = 0_u32;
    let mut samples = 0_u32;
    for q in -32..32_i64 {
        for r in -32..32_i64 {
            let a = hash2(42, DOM_CONTINENTALNESS, q, r);
            let b = hash2(42, DOM_CONTINENTALNESS, q + 1, r);
            total_bits += (a ^ b).count_ones();
            samples += 1;
        }
    }
    let mean = f64::from(total_bits) / f64::from(samples);
    assert!((26.0..38.0).contains(&mean), "mean flipped bits {mean}");
}

#[test]
fn every_output_bit_avalanches() {
    // Flip one input bit and count how often each output bit changes. A
    // well-behaved finalizer lands near half for every position.
    let mut flips = [0_u32; 64];
    let trials = 1_024_u32;
    for i in 0..trials {
        let value = i64::from(i).wrapping_mul(0x0123_4567).wrapping_sub(1 << 40);
        for bit in 0..64 {
            let a = hash2(0xa5a5_a5a5, DOM_TERRAIN_DETAIL, value, 7);
            let b = hash2(0xa5a5_a5a5, DOM_TERRAIN_DETAIL, value ^ (1_i64 << bit), 7);
            let diff = a ^ b;
            for (position, count) in flips.iter_mut().enumerate() {
                *count += u32::from((diff >> position) & 1 == 1);
            }
        }
    }
    let expected = f64::from(trials) * 64.0;
    for (position, count) in flips.iter().enumerate() {
        let rate = f64::from(*count) / expected;
        assert!(
            (0.4..0.6).contains(&rate),
            "output bit {position} flip rate {rate}"
        );
    }
}
