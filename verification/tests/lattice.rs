use wgvb::config::{
    contrast_passes, octave_count, positive_size, OctaveCount, ZeroSize, MAX_CONTRAST_PASSES,
    MAX_FBM_OCTAVES,
};
use wgvb::coord::{
    coarse_reduce, div_nearest, hex_distance_from_origin, in_domain, mirror_centers, normalize,
    MIRROR_CENTERS,
};
use wgvb::hash::{domain, hash2, hash_n, DOM_BASIN, DOM_TEMPERATURE};
use wgvb::{Coord, WORLD_RADIUS};

#[test]
fn div_nearest_rounds_half_up_for_either_sign_of_divisor() {
    assert_eq!(div_nearest(7, 2), 4);
    assert_eq!(div_nearest(5, 2), 3);
    assert_eq!(div_nearest(4, 3), 1);
    assert_eq!(div_nearest(5, 3), 2);
    assert_eq!(div_nearest(-5, 2), -2);
    assert_eq!(div_nearest(-7, 3), -2);
    // A negative divisor moves its sign onto the numerator first.
    assert_eq!(div_nearest(7, -2), -3);
    assert_eq!(div_nearest(-7, -2), 4);
    assert_eq!(div_nearest(0, -9), 0);
}

#[test]
fn hex_distance_is_the_largest_cube_component() {
    assert_eq!(hex_distance_from_origin(0, 0), 0);
    assert_eq!(hex_distance_from_origin(3, -1), 3);
    assert_eq!(hex_distance_from_origin(2, 2), 4);
    assert_eq!(hex_distance_from_origin(-5, 1), 5);
    assert_eq!(hex_distance_from_origin(1, -6), 6);
}

#[test]
fn the_coarse_solve_lands_within_one_cell_and_keeps_the_tile() {
    for (q, r) in [
        (i64::MAX, 0),
        (i64::MIN, i64::MAX),
        (1 << 40, -(1 << 41)),
        (123_456_789, 987_654_321),
        (70_000, 0),
    ] {
        let (rq, rr) = coarse_reduce(WORLD_RADIUS, q, r);
        let distance = hex_distance_from_origin(rq, rr);
        assert!(distance <= 2 * 32_767 + 1, "({q}, {r}) -> ({rq}, {rr})");
        assert_eq!(Coord::new(rq, rr), Coord::new(q, r), "({q}, {r})");
    }
}

#[test]
fn one_step_past_the_positive_q_edge_wraps_to_the_far_side() {
    // (N + 1, 0) minus mirror center 0, (2N + 1, -N), is (-N, N).
    let c = Coord::new(WORLD_RADIUS + 1, 0);
    assert_eq!((c.q(), c.r()), (-32_767, 32_767));
    assert_eq!(
        normalize(WORLD_RADIUS, &MIRROR_CENTERS, WORLD_RADIUS + 1, 0),
        (-WORLD_RADIUS, WORLD_RADIUS)
    );
}

#[test]
fn a_straight_walk_of_the_tile_count_returns_at_full_radius() {
    // 3N(N + 1) + 1 steps in one direction is the identity, as one jump.
    let count = 3 * WORLD_RADIUS * (WORLD_RADIUS + 1) + 1;
    for (q, r) in [(0_i64, 0_i64), (17, -4), (-32_767, 100)] {
        assert_eq!(Coord::new(q + count, r), Coord::new(q, r));
        assert_eq!(Coord::new(q, r - count), Coord::new(q, r));
        assert_eq!(Coord::new(q - count, r + count), Coord::new(q, r));
    }
}

#[test]
fn the_small_world_normalizer_is_total_on_extreme_input() {
    let n = 2;
    let centers = mirror_centers(n);
    for (q, r) in [(i64::MAX, i64::MIN), (i64::MIN, i64::MIN), (9, 9), (-100, 3)] {
        let (nq, nr) = normalize(n, &centers, q, r);
        assert!(in_domain(n, nq, nr), "({q}, {r}) -> ({nq}, {nr})");
    }
}

#[test]
fn every_domain_constant_is_the_fnv_1a_of_its_name() {
    assert_eq!(domain(b"continentalness"), wgvb::DOM_CONTINENTALNESS);
    assert_eq!(domain(b"regional-elevation"), wgvb::DOM_REGIONAL_ELEVATION);
    assert_eq!(domain(b"relief"), wgvb::DOM_RELIEF);
    assert_eq!(domain(b"moisture"), wgvb::DOM_MOISTURE);
    assert_eq!(domain(b"temperature"), wgvb::DOM_TEMPERATURE);
    assert_eq!(domain(b"terrain-detail"), wgvb::DOM_TERRAIN_DETAIL);
    assert_eq!(domain(b"region-style"), wgvb::DOM_REGION_STYLE);
    assert_eq!(domain(b"ridge-orientation"), wgvb::DOM_RIDGE_ORIENTATION);
    assert_eq!(domain(b"basin"), wgvb::DOM_BASIN);
    assert_eq!(domain(b"volcanic"), wgvb::DOM_VOLCANIC);
    assert_eq!(domain(b"ridge-structure"), wgvb::hash::DOM_RIDGE_STRUCTURE);
    assert_eq!(domain(b"moisture-variation"), wgvb::hash::DOM_MOISTURE_VARIATION);
    assert_eq!(domain(b"warp-x"), wgvb::hash::DOM_WARP_X);
    assert_eq!(domain(b"warp-y"), wgvb::hash::DOM_WARP_Y);
    assert_eq!(domain(b"detail-warp-x"), wgvb::hash::DOM_DETAIL_WARP_X);
    assert_eq!(domain(b"detail-warp-y"), wgvb::hash::DOM_DETAIL_WARP_Y);
    assert_eq!(domain(b"field-offset"), wgvb::hash::DOM_FIELD_OFFSET);
}

#[test]
fn hashes_have_their_exact_splitmix_values() {
    assert_eq!(hash2(7, DOM_BASIN, -3, 9), 0x8b49_b7d4_f98f_2731);
    assert_eq!(hash_n(99, DOM_TEMPERATURE, [1_i64, 2, 3]), 0xe55d_cc63_7e9b_03cd);
    // The finalizer fixes zero, so an empty hash of a zero seed and domain is
    // zero.
    assert_eq!(hash_n::<0>(0, 0, []), 0);
    assert_eq!(hash_n(0, 0, [-3_i64, 9]), hash2(0, 0, -3, 9));
}

#[test]
fn a_zero_cell_size_is_rejected_and_others_are_not() {
    assert_eq!(
        positive_size("chunk_size_hexes", 0),
        Err(ZeroSize {
            field: "chunk_size_hexes"
        })
    );
    assert_eq!(positive_size("region_size_hexes", 1), Ok(()));
    assert_eq!(positive_size("macro_region_size_hexes", 512), Ok(()));
}

#[test]
fn the_world_mirror_table_is_the_rotation_of_its_first_center() {
    assert_eq!(mirror_centers(WORLD_RADIUS), MIRROR_CENTERS);
}

#[test]
fn the_octave_count_is_accepted_exactly_from_one_through_sixteen() {
    assert_eq!(
        octave_count("heat_octaves", 0),
        Err(OctaveCount {
            field: "heat_octaves",
            octaves: 0
        })
    );
    for octaves in 1..=MAX_FBM_OCTAVES {
        assert_eq!(octave_count("heat_octaves", octaves), Ok(()));
    }
    assert_eq!(MAX_FBM_OCTAVES, 16);
    assert_eq!(
        octave_count("detail_octaves", 17),
        Err(OctaveCount {
            field: "detail_octaves",
            octaves: 17
        })
    );
    assert_eq!(
        octave_count("local_octaves", u8::MAX),
        Err(OctaveCount {
            field: "local_octaves",
            octaves: u8::MAX
        })
    );
}

#[test]
fn the_contrast_pass_count_is_accepted_from_zero_through_four() {
    assert_eq!(MAX_CONTRAST_PASSES, 4);
    for passes in 0..=MAX_CONTRAST_PASSES {
        assert_eq!(contrast_passes(passes), Ok(()));
    }
    assert_eq!(contrast_passes(5), Err(5));
    assert_eq!(contrast_passes(u8::MAX), Err(u8::MAX));
}

#[test]
fn coarse_reduce_is_the_rounded_lattice_solve() {
    assert_eq!(coarse_reduce(2, 100, -37), (3, -2));
    assert_eq!(coarse_reduce(1, 5, 5), (-1, 0));
    assert_eq!(coarse_reduce(WORLD_RADIUS, i64::MAX, 0), (18_203, 7_281));
}

#[test]
fn normalization_works_at_the_largest_accepted_radius() {
    let n = wgvb::coord::MAX_WRAP_RADIUS;
    let centers = mirror_centers(n);
    for (q, r) in [
        (i64::MAX, 0),
        (i64::MIN, i64::MIN),
        (i64::MAX, i64::MAX),
        (i64::MIN + 1, i64::MAX),
        (3 * n, -n),
        (n + 1, 0),
    ] {
        let (nq, nr) = normalize(n, &centers, q, r);
        assert!(in_domain(n, nq, nr), "({q}, {r}) -> ({nq}, {nr})");
    }
    assert_eq!(normalize(n, &centers, n + 1, 0), (-n, n));
}
