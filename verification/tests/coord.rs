use std::collections::HashSet;
use wgvb::coord::{
    in_domain, mirror_centers, normalize, rotate_once, DIRECTIONS, DIRECTION_COUNT, MIRROR_CENTERS,
};
use wgvb::{direction_index, hash2, Coord, DOM_BASIN, WORLD_RADIUS};

/// Cube form of the pinned direction table, `(q, r, -q - r)`.
fn direction_cube(direction: usize) -> (i64, i64, i64) {
    let (q, r) = DIRECTIONS[direction];
    (i64::from(q), i64::from(r), -i64::from(q) - i64::from(r))
}

#[test]
fn direction_table_matches_the_pinned_vectors() {
    // DESIGN.md appendix A, transcribed independently of the source table.
    let expected: [(i64, i64, i64); 6] = [
        (1, 0, -1),
        (1, -1, 0),
        (0, -1, 1),
        (-1, 0, 1),
        (-1, 1, 0),
        (0, 1, -1),
    ];
    for (d, want) in expected.iter().enumerate() {
        assert_eq!(direction_cube(d), *want, "direction {d}");
    }
}

#[test]
fn one_step_advances_the_direction_index() {
    for d in 0..DIRECTION_COUNT {
        assert_eq!(
            rotate_once(direction_cube(d)),
            direction_cube((d + 1) % 6),
            "direction {d}"
        );
    }
}

#[test]
fn six_rotations_are_the_identity() {
    for d in 0..DIRECTION_COUNT {
        let mut v = direction_cube(d);
        for _ in 0..6 {
            v = rotate_once(v);
        }
        assert_eq!(v, direction_cube(d));
    }
    // And on a value that is not a direction vector.
    let mut v = (12_345, -7, -12_338);
    for _ in 0..6 {
        v = rotate_once(v);
    }
    assert_eq!(v, (12_345, -7, -12_338));
}

#[test]
fn the_inverse_step_undoes_one_step_in_index_order() {
    // Named for the index rather than for a rotation sense: the compass
    // words belong to a viewer, and this crate has none. Appendix A,
    // *Rotation senses*.
    let back = |(x, y, z): (i64, i64, i64)| (-y, -z, -x);
    for d in 0..DIRECTION_COUNT {
        assert_eq!(back(rotate_once(direction_cube(d))), direction_cube(d));
    }
}

#[test]
fn direction_index_normalizes_negative_and_large_inputs() {
    // DESIGN.md appendix A table.
    assert_eq!(direction_index(7), 1);
    assert_eq!(direction_index(6), 0);
    assert_eq!(direction_index(-1), 5);
    assert_eq!(direction_index(-2), 4);
    assert_eq!(direction_index(-6), 0);
    for d in -24..24 {
        assert_eq!(direction_index(d), direction_index(d + 6));
        assert!(direction_index(d) < DIRECTION_COUNT);
    }
    assert!(direction_index(i32::MIN) < DIRECTION_COUNT);
    assert!(direction_index(i32::MAX) < DIRECTION_COUNT);
}

#[test]
fn mirror_centers_close_after_six_rotations_and_sum_to_zero() {
    for n in [1_i64, 2, 5, 17, WORLD_RADIUS] {
        let centers = mirror_centers(n);
        for (i, c) in centers.iter().enumerate() {
            assert_eq!(
                c.0 + c.1 + c.2,
                0,
                "center {i} of radius {n} does not sum to zero"
            );
        }
        let mut v = centers[0];
        for (i, center) in centers.iter().enumerate() {
            assert_eq!(v, *center, "rotation {i} of radius {n}");
            v = rotate_once(v);
        }
        assert_eq!(v, centers[0], "six rotations must close");
    }
}

#[test]
fn mirror_centers_for_this_world_are_the_expected_triples() {
    // Derived by hand from (2N+1, -N, -N-1) with N = 32767, rotating with
    // (x, y, z) -> (-z, -x, -y). Two centers sit at +-65535, outside
    // Component range.
    assert_eq!(
        MIRROR_CENTERS,
        [
            (65_535, -32_767, -32_768),
            (32_768, -65_535, 32_767),
            (-32_767, -32_768, 65_535),
            (-65_535, 32_767, 32_768),
            (-32_768, 65_535, -32_767),
            (32_767, 32_768, -65_535),
        ]
    );
}

#[test]
fn mirror_center_translations_are_the_identity_on_tile_identity() {
    for center in MIRROR_CENTERS {
        for (q, r) in [
            (0_i64, 0_i64),
            (1, 2),
            (-5, 3),
            (WORLD_RADIUS, 0),
            (0, -WORLD_RADIUS),
        ] {
            let direct = Coord::new(q, r);
            let translated = Coord::new(q + center.0, r + center.1);
            assert_eq!(direct, translated, "center {center:?} at ({q}, {r})");
        }
    }
}

/// Exhaustive check of the normalizer at a radius small enough to enumerate.
#[test]
fn normalization_is_exhaustively_correct_at_small_radius() {
    for n in 1..=6_i64 {
        let centers = mirror_centers(n);
        let count = 1 + 3 * n * (n + 1);

        // Every canonical coordinate is a fixed point.
        let mut canonical = Vec::new();
        for q in -n..=n {
            for r in -n..=n {
                if in_domain(n, q, r) {
                    canonical.push((q, r));
                    assert_eq!(normalize(n, &centers, q, r), (q, r), "radius {n}");
                }
            }
        }
        assert_eq!(
            i64::try_from(canonical.len()).unwrap(),
            count,
            "radius {n} tile count"
        );

        // Every coordinate in a box several copies wide normalizes into the
        // domain, is idempotent, and agrees with its mirror translations.
        let span = 4 * n + 3;
        let mut classes: HashSet<(i64, i64)> = HashSet::new();
        for q in -span..=span {
            for r in -span..=span {
                let (nq, nr) = normalize(n, &centers, q, r);
                assert!(
                    in_domain(n, nq, nr),
                    "radius {n}: ({q}, {r}) -> ({nq}, {nr})"
                );
                assert_eq!(normalize(n, &centers, nq, nr), (nq, nr), "idempotence");
                classes.insert((nq, nr));
                for center in centers {
                    assert_eq!(
                        normalize(n, &centers, q + center.0, r + center.1),
                        (nq, nr),
                        "radius {n}: ({q}, {r}) + {center:?}"
                    );
                }
            }
        }
        // The box covers every class at least once.
        assert_eq!(
            i64::try_from(classes.len()).unwrap(),
            count,
            "radius {n} coverage"
        );
    }
}

#[test]
fn normalization_is_exhaustive_around_zero() {
    // Section 24: the floorDiv/floorMod helpers are gone, the boundary cases
    // are not.
    for q in -3..=3_i64 {
        for r in -3..=3_i64 {
            let c = Coord::new(q, r);
            assert_eq!((i64::from(c.q()), i64::from(c.r())), (q, r), "({q}, {r})");
            assert_eq!(i64::from(c.s()), -q - r);
        }
    }
}

#[test]
fn canonical_coordinates_survive_new_unchanged() {
    for (q, r) in [
        (0_i64, 0_i64),
        (WORLD_RADIUS, 0),
        (0, WORLD_RADIUS),
        (-WORLD_RADIUS, 0),
        (0, -WORLD_RADIUS),
        (WORLD_RADIUS, -WORLD_RADIUS),
        (-WORLD_RADIUS, WORLD_RADIUS),
        (-1, -WORLD_RADIUS + 1),
        (12_345, -7),
    ] {
        let c = Coord::new(q, r);
        assert_eq!(i64::from(c.q()), q, "({q}, {r})");
        assert_eq!(i64::from(c.r()), r, "({q}, {r})");
        assert_eq!(i64::from(c.s()), -q - r);
    }
}

#[test]
fn every_wrapped_edge_lands_on_the_correct_opposite_tile() {
    // Step one tile past each of the six edges of the canonical hexagon and
    // confirm the result is the mirror translation of that step, which is
    // the tile on the far side of the world.
    let n = WORLD_RADIUS;
    for (d, (dq, dr)) in DIRECTIONS.iter().enumerate() {
        let direction = i32::try_from(d).unwrap();
        // A coordinate on the edge that direction d leaves through: rotate
        // the +q edge midpoint into place.
        let edge = Coord::new(n, 0).rotate(direction);
        let stepped = edge.neighbor(direction);
        let raw_q = i64::from(edge.q()) + i64::from(*dq);
        let raw_r = i64::from(edge.r()) + i64::from(*dr);
        assert!(
            !in_domain(n, raw_q, raw_r),
            "direction {d} should leave the domain"
        );

        // The wrapped result differs from the raw step by exactly one
        // mirror center.
        let matched = MIRROR_CENTERS.iter().any(|center| {
            raw_q - center.0 == i64::from(stepped.q())
                && raw_r - center.1 == i64::from(stepped.r())
        });
        assert!(matched, "direction {d}: ({raw_q}, {raw_r}) -> {stepped:?}");

        // And stepping back returns to the edge tile.
        assert_eq!(stepped.neighbor(direction + 3), edge, "direction {d}");
    }
}

#[test]
fn a_straight_walk_stays_in_the_domain_and_closes_on_itself() {
    // At radius 3 the world holds 37 tiles and 37 is prime, so a straight
    // walk in any direction is a single cycle through every tile: it must
    // stay canonical at every step and return to its start after exactly 37.
    let n = 3_i64;
    let centers = mirror_centers(n);
    let count = 1 + 3 * n * (n + 1);
    for (d, (dq, dr)) in DIRECTIONS.iter().enumerate() {
        let (dq, dr) = (i64::from(*dq), i64::from(*dr));
        let start = (1_i64, -2_i64);
        let mut at = start;
        let mut visited = HashSet::new();
        for step in 1..=count {
            at = normalize(n, &centers, at.0 + dq, at.1 + dr);
            assert!(in_domain(n, at.0, at.1), "direction {d} step {step}");
            if step < count {
                assert_ne!(at, start, "direction {d} closed early at step {step}");
                assert!(
                    visited.insert(at),
                    "direction {d} repeated a tile at step {step}"
                );
            }
        }
        assert_eq!(at, start, "direction {d} must close after {count} steps");
    }
}

#[test]
fn out_of_domain_input_is_idempotent_and_extreme_input_is_total() {
    for (q, r) in [
        (WORLD_RADIUS + 1, 0),
        (0, WORLD_RADIUS + 1),
        (WORLD_RADIUS, WORLD_RADIUS),
        (-WORLD_RADIUS - 1, -WORLD_RADIUS - 1),
        (i64::MAX, 0),
        (0, i64::MAX),
        (i64::MIN, 0),
        (0, i64::MIN),
        (i64::MAX, i64::MIN),
        (i64::MIN, i64::MAX),
        (i64::MAX, i64::MAX),
        (i64::MIN, i64::MIN),
        (1 << 40, -(1 << 41)),
    ] {
        let c = Coord::new(q, r);
        assert!(
            in_domain(WORLD_RADIUS, i64::from(c.q()), i64::from(c.r())),
            "({q}, {r})"
        );
        assert_eq!(
            Coord::new(i64::from(c.q()), i64::from(c.r())),
            c,
            "({q}, {r})"
        );
    }
}

/// An independent normalizer: search the wraparound lattice directly for the
/// representative that lands in the domain. Correct only for inputs within a
/// few world widths, which is what makes it a check on the `i128` lattice
/// solve and the greedy walk rather than a restatement of them.
fn reference_normalize(n: i64, q: i64, r: i64) -> (i64, i64) {
    let centers = mirror_centers(n);
    let (m0q, m0r) = (centers[0].0, centers[0].1);
    let (m1q, m1r) = (centers[1].0, centers[1].1);
    for a in -8..=8_i64 {
        for b in -8..=8_i64 {
            let candidate_q = q - a * m0q - b * m1q;
            let candidate_r = r - a * m0r - b * m1r;
            if in_domain(n, candidate_q, candidate_r) {
                return (candidate_q, candidate_r);
            }
        }
    }
    panic!("reference normalizer found no representative for ({q}, {r})");
}

#[test]
fn normalization_agrees_with_a_direct_lattice_search() {
    let n = WORLD_RADIUS;
    let span = 4 * (2 * n + 1);

    // Deterministic test coordinates. The generator's own mixer stands in for
    // a PRNG here; the `rand` crate is for tooling, never for anything that
    // has to reproduce.
    let mut cases: Vec<(i64, i64)> = Vec::new();
    for i in 0..2_000_i64 {
        let hq = hash2(0x5eed_0001, DOM_BASIN, i, 0);
        let hr = hash2(0x5eed_0002, DOM_BASIN, i, 1);
        cases.push((
            hq.cast_signed().rem_euclid(2 * span) - span,
            hr.cast_signed().rem_euclid(2 * span) - span,
        ));
    }
    // Plus exact lattice points and points just off them, where a rounding
    // mistake in the solve would show.
    for center in MIRROR_CENTERS {
        for multiple in -3..=3_i64 {
            for (dq, dr) in [(0_i64, 0_i64), (1, 0), (-1, 0), (0, 1), (0, -1), (n, -n)] {
                cases.push((center.0 * multiple + dq, center.1 * multiple + dr));
            }
        }
    }

    for (q, r) in cases {
        let c = Coord::new(q, r);
        let expected = reference_normalize(n, q, r);
        assert_eq!((i64::from(c.q()), i64::from(c.r())), expected, "({q}, {r})");
    }
}

#[test]
fn values_that_normalize_together_are_equal_and_hash_equally() {
    // A `HashSet` lookup that finds an existing entry has already proved the
    // two values hash to the same bucket and compare equal. No explicit
    // hasher is constructed here: see DESIGN.md section 25.4.
    for center in MIRROR_CENTERS {
        let a = Coord::new(17, -4);
        let b = Coord::new(17 + center.0, -4 + center.1);
        assert_eq!(a, b, "center {center:?}");
        assert_eq!(a.cmp(&b), std::cmp::Ordering::Equal, "center {center:?}");

        let mut set = HashSet::new();
        assert!(set.insert(a));
        assert!(
            !set.insert(b),
            "center {center:?} inserted a duplicate tile"
        );
        assert_eq!(set.len(), 1);
    }
}

#[test]
fn neighbors_are_reciprocal_and_distinct() {
    for (q, r) in [
        (0_i64, 0_i64),
        (WORLD_RADIUS, 0),
        (-5, WORLD_RADIUS),
        (-12_000, 9_000),
    ] {
        let c = Coord::new(q, r);
        let mut seen = HashSet::new();
        for d in 0..6 {
            let n = c.neighbor(d);
            assert_ne!(n, c, "({q}, {r}) direction {d}");
            assert!(
                seen.insert(n),
                "({q}, {r}) direction {d} repeated a neighbor"
            );
            // Opposite direction returns.
            assert_eq!(n.neighbor(d + 3), c, "({q}, {r}) direction {d}");
        }
    }
}

#[test]
fn neighbor_accepts_any_direction_by_wrapping() {
    let c = Coord::new(4, 4);
    for d in -13..13 {
        assert_eq!(c.neighbor(d), c.neighbor(d + 6), "direction {d}");
    }
    assert_eq!(c.neighbor(-1), c.neighbor(5));
}

#[test]
fn rotation_maps_the_domain_onto_itself_and_commutes_with_normalization() {
    for (q, r) in [
        (0_i64, 0_i64),
        (1, 0),
        (WORLD_RADIUS, 0),
        (-WORLD_RADIUS, WORLD_RADIUS),
        (12_345, -30_000),
        (WORLD_RADIUS + 5, -3),
        (1 << 40, -(1 << 41)),
    ] {
        for k in 0..6 {
            // Rotating the raw pair then normalizing must agree with
            // normalizing then rotating.
            let mut rotated = (q, r, -q - r);
            for _ in 0..k {
                rotated = rotate_once(rotated);
            }
            let rotate_first = Coord::new(rotated.0, rotated.1);
            let normalize_first = Coord::new(q, r).rotate(k);
            assert_eq!(rotate_first, normalize_first, "({q}, {r}) rotated {k}");
        }
        // Six rotations are the identity on Coord too.
        assert_eq!(Coord::new(q, r).rotate(6), Coord::new(q, r));
        assert_eq!(Coord::new(q, r).rotate(-1).rotate(1), Coord::new(q, r));
    }
}

#[test]
fn rotation_permutes_directions_by_index() {
    // The player-frame rule: absolute_direction = (player_direction + k) % 6.
    for k in 0..6 {
        for d in 0..6 {
            let rotated = Coord::origin().neighbor(d).rotate(k);
            assert_eq!(
                rotated,
                Coord::origin().neighbor(d + k),
                "direction {d} rotated {k}"
            );
        }
    }
}

#[test]
fn cell_addressing_is_correct_across_the_origin() {
    // DESIGN.md section 23, with chunk size 32.
    let size = wgvb::DEFAULT_CHUNK_SIZE_HEXES;
    for (q, expected) in [
        (0_i64, 0_i64),
        (31, 0),
        (32, 1),
        (-1, -1),
        (-32, -1),
        (-33, -2),
    ] {
        assert_eq!(Coord::new(q, 0).cell(size).0, expected, "q = {q}");
    }
    for (r, expected) in [
        (0_i64, 0_i64),
        (31, 0),
        (32, 1),
        (-1, -1),
        (-32, -1),
        (-33, -2),
    ] {
        assert_eq!(Coord::new(0, r).cell(size).1, expected, "r = {r}");
    }
}

#[test]
fn cell_offsets_are_non_negative_and_reconstruct_the_coordinate() {
    for size in [1_u32, 2, 32, 128, 512] {
        let divisor = i64::from(size);
        for q in -600..=600_i64 {
            let c = Coord::new(q, -q / 2);
            let (cell_q, cell_r) = c.cell(size);
            let (off_q, off_r) = c.cell_offset(size);
            assert!((0..divisor).contains(&off_q), "size {size} q {q}");
            assert!((0..divisor).contains(&off_r), "size {size} q {q}");
            assert_eq!(
                cell_q * divisor + off_q,
                i64::from(c.q()),
                "size {size} q {q}"
            );
            assert_eq!(
                cell_r * divisor + off_r,
                i64::from(c.r()),
                "size {size} q {q}"
            );
        }
    }
}

#[test]
fn cell_sizes_nest() {
    // A region cell is determined by the chunk cell it contains, because
    // every size divides the next.
    let chunk = wgvb::DEFAULT_CHUNK_SIZE_HEXES;
    let region = wgvb::DEFAULT_REGION_SIZE_HEXES;
    let macro_region = wgvb::DEFAULT_MACRO_REGION_SIZE_HEXES;
    assert_eq!(region % chunk, 0);
    assert_eq!(macro_region % region, 0);

    for q in -300..=300_i64 {
        let c = Coord::new(q, 3 - q);
        let per_chunk = i64::from(region / chunk);
        assert_eq!(
            c.cell(region).0,
            c.cell(chunk).0.div_euclid(per_chunk),
            "q = {q}"
        );
        assert_eq!(
            c.cell(region).1,
            c.cell(chunk).1.div_euclid(per_chunk),
            "q = {q}"
        );
    }
}
