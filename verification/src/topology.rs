//! The laws of the wrapped world: what normalization, neighbors, rotation, and
//! cell addressing promise about one another.
//!
//! Every law is stated over the axial pairs that [`crate::Coord`]'s methods
//! describe in their contracts (see [`crate::coord::names_tile`]), so a law
//! about pairs is a law about the coordinates those methods return.
use vstd::prelude::*;
use vstd::arithmetic::div_mod::*;
use vstd::arithmetic::mul::*;

use crate::coord::{
    abs, cube, direction_vector, hex_norm, in_domain_spec, lemma_class_shift, lemma_class_unique,
    lemma_mirror_center_class, lemma_small_difference_class, mirror_center, names_tile,
    rotate_axial, rotate_once_spec, rotate_times, tile_count, wrap_class,
};
use crate::WORLD_RADIUS;

verus! {

/// The world radius's own constants: `3N + 1`, the tile count, and the class
/// map with both written out.
pub proof fn lemma_world_constants()
    ensures
        3 * (WORLD_RADIUS as int) + 1 == 98302,
        tile_count(WORLD_RADIUS as int) == 3221127169,
        forall|q: int, r: int|
            #[trigger] wrap_class(WORLD_RADIUS as int, q, r) == (q - 98302 * r) % 3221127169,
{
    let n = WORLD_RADIUS as int;
    assert(n == 32767);
    assert(n * n == 1073676289) by (nonlinear_arith)
        requires
            n == 32767,
    ;
    assert forall|q: int, r: int|
        #[trigger] wrap_class(WORLD_RADIUS as int, q, r) == (q - 98302 * r) % 3221127169 by {
        assert((3 * n + 1) * r == 98302 * r);
    }
}

/// Normalization is idempotent: the canonical representative of a pair that is
/// already canonical is that pair, so `Coord::new(c.q(), c.r()) == c`.
pub proof fn law_canonical_pairs_are_fixed(c: (int, int), q: int, r: int)
    requires
        in_domain_spec(WORLD_RADIUS as int, q, r),
        names_tile(c, q, r),
    ensures
        c == (q, r),
{
    lemma_class_unique(WORLD_RADIUS as int, c.0, c.1, q, r);
}

/// Two pairs normalize to the same coordinate exactly when they name the same
/// tile, that is, when their wraparound classes agree.
pub proof fn law_same_coordinate_iff_same_tile(
    c1: (int, int),
    q1: int,
    r1: int,
    c2: (int, int),
    q2: int,
    r2: int,
)
    requires
        names_tile(c1, q1, r1),
        names_tile(c2, q2, r2),
    ensures
        c1 == c2 <==> wrap_class(WORLD_RADIUS as int, q1, r1) == wrap_class(
            WORLD_RADIUS as int,
            q2,
            r2,
        ),
{
    if wrap_class(WORLD_RADIUS as int, q1, r1) == wrap_class(WORLD_RADIUS as int, q2, r2) {
        lemma_class_unique(WORLD_RADIUS as int, c1.0, c1.1, c2.0, c2.1);
    }
}

/// Translating a pair by any mirror center names the same tile, so
/// `Coord::new(q + m.0, r + m.1) == Coord::new(q, r)` for every mirror center
/// `m`.
pub proof fn law_mirror_translation_is_identity(q: int, r: int, i: int)
    requires
        0 <= i < 6,
    ensures
        wrap_class(
            WORLD_RADIUS as int,
            q + mirror_center(WORLD_RADIUS as int, i).0,
            r + mirror_center(WORLD_RADIUS as int, i).1,
        ) == wrap_class(WORLD_RADIUS as int, q, r),
{
    lemma_mirror_center_class(WORLD_RADIUS as int, i, q, r);
}

/// The mirror centers each sum to zero and close after six rotations.
pub proof fn law_mirror_centers_close(n: int, i: int)
    requires
        0 <= i < 6,
    ensures
        mirror_center(n, i).0 + mirror_center(n, i).1 + mirror_center(n, i).2 == 0,
        rotate_once_spec(mirror_center(n, i)) == mirror_center(n, (i + 1) % 6),
{
}

/// Class arithmetic: translating two pairs of one class by the same vector
/// leaves them in one class.
proof fn lemma_class_translate(q1: int, r1: int, q2: int, r2: int, a: int, b: int)
    requires
        wrap_class(WORLD_RADIUS as int, q1, r1) == wrap_class(WORLD_RADIUS as int, q2, r2),
    ensures
        wrap_class(WORLD_RADIUS as int, q1 + a, r1 + b) == wrap_class(
            WORLD_RADIUS as int,
            q2 + a,
            r2 + b,
        ),
{
    let d = tile_count(WORLD_RADIUS as int);
    lemma_world_constants();
    let x1 = q1 - 98302 * r1;
    let x2 = q2 - 98302 * r2;
    let y = a - 98302 * b;
    lemma_add_mod_noop(x1, y, d);
    lemma_add_mod_noop(x2, y, d);
}

/// Stepping to a neighbor and then in the opposite direction returns to the
/// starting tile: `c.neighbor(d).neighbor(d + 3) == c`.
pub proof fn law_neighbor_steps_are_reciprocal(c: (int, int), d: int, n1: (int, int), n2: (int, int))
    requires
        in_domain_spec(WORLD_RADIUS as int, c.0, c.1),
        names_tile(n1, c.0 + direction_vector(d % 6).0, c.1 + direction_vector(d % 6).1),
        names_tile(
            n2,
            n1.0 + direction_vector((d + 3) % 6).0,
            n1.1 + direction_vector((d + 3) % 6).1,
        ),
    ensures
        n2 == c,
{
    let v = direction_vector(d % 6);
    let w = direction_vector((d + 3) % 6);
    assert(v.0 + w.0 == 0 && v.1 + w.1 == 0);
    lemma_class_translate(n1.0, n1.1, c.0 + v.0, c.1 + v.1, w.0, w.1);
    lemma_class_unique(WORLD_RADIUS as int, n2.0, n2.1, c.0, c.1);
}

/// Two pairs of one class that lie within hex distance `2N` of each other are
/// the same pair: a nonzero vector that short never maps a tile to itself.
pub(crate) proof fn lemma_near_pairs_of_one_class(q1: int, r1: int, q2: int, r2: int)
    requires
        hex_norm(q1 - q2, r1 - r2) <= 2 * WORLD_RADIUS,
        wrap_class(WORLD_RADIUS as int, q1, r1) == wrap_class(WORLD_RADIUS as int, q2, r2),
    ensures
        q1 == q2 && r1 == r2,
{
    let n = WORLD_RADIUS as int;
    let d = tile_count(n);
    let x1 = q1 - (3 * n + 1) * r1;
    let x2 = q2 - (3 * n + 1) * r2;
    lemma_world_constants();
    assert(wrap_class(n, q1, r1) == x1 % d);
    assert(wrap_class(n, q2, r2) == x2 % d);
    lemma_fundamental_div_mod(x1, d);
    lemma_fundamental_div_mod(x2, d);
    let k = x1 / d - x2 / d;
    assert(x1 - x2 == k * d) by (nonlinear_arith)
        requires
            x1 == d * (x1 / d) + x1 % d,
            x2 == d * (x2 / d) + x2 % d,
            x1 % d == x2 % d,
            k == x1 / d - x2 / d,
    ;
    assert((q1 - q2) - (3 * n + 1) * (r1 - r2) == x1 - x2);
    lemma_small_difference_class(n, q1 - q2, r1 - r2, k);
}

/// The six neighbors of a tile are six distinct tiles, none of them the tile
/// itself.
pub proof fn law_neighbors_are_distinct(c: (int, int), d1: int, d2: int, n1: (int, int), n2: (int, int))
    requires
        in_domain_spec(WORLD_RADIUS as int, c.0, c.1),
        0 <= d1 < 6,
        0 <= d2 < 6,
        names_tile(n1, c.0 + direction_vector(d1).0, c.1 + direction_vector(d1).1),
        names_tile(n2, c.0 + direction_vector(d2).0, c.1 + direction_vector(d2).1),
    ensures
        n1 != c,
        d1 != d2 ==> n1 != n2,
{
    let v1 = direction_vector(d1);
    let v2 = direction_vector(d2);
    if n1 == c {
        lemma_near_pairs_of_one_class(c.0 + v1.0, c.1 + v1.1, c.0, c.1);
    }
    if d1 != d2 && n1 == n2 {
        lemma_near_pairs_of_one_class(c.0 + v1.0, c.1 + v1.1, c.0 + v2.0, c.1 + v2.1);
    }
}

/// A walk of `3N(N + 1) + 1` steps in one direction returns to its start: the
/// wrapped world is a single cycle along every direction.
pub proof fn law_straight_walk_closes(q: int, r: int, d: int)
    requires
        0 <= d < 6,
    ensures
        wrap_class(
            WORLD_RADIUS as int,
            q + tile_count(WORLD_RADIUS as int) * direction_vector(d).0,
            r + tile_count(WORLD_RADIUS as int) * direction_vector(d).1,
        ) == wrap_class(WORLD_RADIUS as int, q, r),
{
    let t = tile_count(WORLD_RADIUS as int);
    lemma_world_constants();
    let v = direction_vector(d);
    let x = q - 98302 * r;
    assert((q + 3221127169 * v.0) - 98302 * (r + 3221127169 * v.1) == x + (v.0 - 98302 * v.1)
        * 3221127169);
    lemma_class_shift(WORLD_RADIUS as int, x, v.0 - 98302 * v.1);
}

/// Six sixths of a turn are the identity, and `(x, y, z) -> (-y, -z, -x)`
/// undoes one step.
pub proof fn law_six_rotations_are_the_identity(v: (int, int, int))
    ensures
        rotate_times(v, 6) == v,
        ({
            let w = rotate_once_spec(v);
            (-w.1, -w.2, -w.0)
        }) == v,
{
    reveal_with_fuel(rotate_times, 7);
}

/// Rotation keeps a cube vector a cube vector.
proof fn lemma_rotate_is_cube(c: (int, int), k: nat)
    ensures
        rotate_times(cube(c), k) == cube(rotate_axial(c, k)),
    decreases k,
{
    if k > 0 {
        lemma_rotate_is_cube(c, (k - 1) as nat);
    }
}

/// Rotation maps the canonical hexagon onto itself.
proof fn lemma_rotate_in_domain(c: (int, int), k: nat)
    requires
        in_domain_spec(WORLD_RADIUS as int, c.0, c.1),
    ensures
        in_domain_spec(WORLD_RADIUS as int, rotate_axial(c, k).0, rotate_axial(c, k).1),
    decreases k,
{
    lemma_rotate_is_cube(c, k);
    if k > 0 {
        lemma_rotate_in_domain(c, (k - 1) as nat);
        lemma_rotate_is_cube(c, (k - 1) as nat);
    }
}

/// One sixth of a turn multiplies the class argument by `3N + 2`, up to whole
/// tile counts; so rotation carries pairs of one class to pairs of one class.
proof fn lemma_rotate_class(c1: (int, int), c2: (int, int), k: nat)
    requires
        wrap_class(WORLD_RADIUS as int, c1.0, c1.1) == wrap_class(WORLD_RADIUS as int, c2.0, c2.1),
    ensures
        wrap_class(WORLD_RADIUS as int, rotate_axial(c1, k).0, rotate_axial(c1, k).1) == wrap_class(
            WORLD_RADIUS as int,
            rotate_axial(c2, k).0,
            rotate_axial(c2, k).1,
        ),
    decreases k,
{
    if k > 0 {
        let k1 = (k - 1) as nat;
        lemma_rotate_class(c1, c2, k1);
        lemma_rotate_is_cube(c1, k1);
        lemma_rotate_is_cube(c2, k1);
        lemma_rotate_one_class(rotate_axial(c1, k1), rotate_axial(c2, k1));
        lemma_rotate_is_cube(c1, k);
        lemma_rotate_is_cube(c2, k);
    }
}

/// [`lemma_rotate_class`] for a single step.
proof fn lemma_rotate_one_class(p1: (int, int), p2: (int, int))
    requires
        wrap_class(WORLD_RADIUS as int, p1.0, p1.1) == wrap_class(WORLD_RADIUS as int, p2.0, p2.1),
    ensures
        wrap_class(WORLD_RADIUS as int, p1.0 + p1.1, -p1.0) == wrap_class(
            WORLD_RADIUS as int,
            p2.0 + p2.1,
            -p2.0,
        ),
{
    let d = tile_count(WORLD_RADIUS as int);
    lemma_world_constants();
    let x1 = p1.0 - 98302 * p1.1;
    let x2 = p2.0 - 98302 * p2.1;
    // (q + r) + 98302 q == 98303 (q - 98302 r) + 3 d r.
    assert((p1.0 + p1.1) - 98302 * (-p1.0) == 98303 * x1 + (3 * p1.1) * 3221127169);
    assert((p2.0 + p2.1) - 98302 * (-p2.0) == 98303 * x2 + (3 * p2.1) * 3221127169);
    lemma_class_shift(WORLD_RADIUS as int, 98303 * x1, 3 * p1.1);
    lemma_class_shift(WORLD_RADIUS as int, 98303 * x2, 3 * p2.1);
    lemma_mul_mod_noop_right(98303, x1, d);
    lemma_mul_mod_noop_right(98303, x2, d);
}

/// Rotation commutes with normalization: rotating a raw pair and then
/// normalizing gives the rotation of its canonical coordinate, so
/// `Coord::new(rotated raw pair) == Coord::new(q, r).rotate(k)`.
pub proof fn law_rotation_commutes_with_normalization(c: (int, int), q: int, r: int, k: nat)
    requires
        names_tile(c, q, r),
    ensures
        names_tile(rotate_axial(c, k), rotate_axial((q, r), k).0, rotate_axial((q, r), k).1),
{
    lemma_rotate_in_domain(c, k);
    lemma_rotate_class(c, (q, r), k);
}

/// A turn of `k` sixths carries direction `d` to direction `d + k`.
proof fn lemma_rotate_direction(d: int, k: nat)
    requires
        0 <= d < 6,
    ensures
        rotate_axial(direction_vector(d), k) == direction_vector((d + k) % 6),
    decreases k,
{
    if k > 0 {
        lemma_rotate_direction(d, (k - 1) as nat);
        lemma_rotate_is_cube(direction_vector(d), (k - 1) as nat);
        lemma_rotate_is_cube(direction_vector(d), k);
    }
}

/// Rotation is linear on axial pairs.
proof fn lemma_rotate_sum(c: (int, int), v: (int, int), k: nat)
    ensures
        rotate_axial((c.0 + v.0, c.1 + v.1), k) == (
            rotate_axial(c, k).0 + rotate_axial(v, k).0,
            rotate_axial(c, k).1 + rotate_axial(v, k).1,
        ),
    decreases k,
{
    if k > 0 {
        let k1 = (k - 1) as nat;
        lemma_rotate_sum(c, v, k1);
        lemma_rotate_is_cube(c, k1);
        lemma_rotate_is_cube(v, k1);
        lemma_rotate_is_cube((c.0 + v.0, c.1 + v.1), k1);
        lemma_rotate_is_cube(c, k);
        lemma_rotate_is_cube(v, k);
        lemma_rotate_is_cube((c.0 + v.0, c.1 + v.1), k);
    }
}

/// Rotation permutes directions by index: rotating the neighbor of `c` in
/// direction `d` by `k` gives the neighbor of the rotated `c` in direction
/// `d + k`, so `c.neighbor(d).rotate(k) == c.rotate(k).neighbor(d + k)`.
pub proof fn law_rotation_permutes_directions(c: (int, int), d: int, k: nat, n: (int, int))
    requires
        in_domain_spec(WORLD_RADIUS as int, c.0, c.1),
        0 <= d < 6,
        names_tile(n, c.0 + direction_vector(d).0, c.1 + direction_vector(d).1),
    ensures
        names_tile(
            rotate_axial(n, k),
            rotate_axial(c, k).0 + direction_vector((d + k) % 6).0,
            rotate_axial(c, k).1 + direction_vector((d + k) % 6).1,
        ),
{
    let v = direction_vector(d);
    law_rotation_commutes_with_normalization(n, c.0 + v.0, c.1 + v.1, k);
    lemma_rotate_sum(c, v, k);
    lemma_rotate_direction(d, k);
}

/// Cell offsets are non-negative, below the cell size, and reconstruct the
/// component: `cell * size + offset == q`.
pub proof fn law_cell_offset_reconstructs(x: int, size: int)
    requires
        size > 0,
    ensures
        0 <= x % size < size,
        (x / size) * size + x % size == x,
{
    lemma_fundamental_div_mod(x, size);
    lemma_mod_bound(x, size);
    lemma_mul_is_commutative(x / size, size);
}

/// Cell sizes nest: when a larger size is a whole multiple `k` of a smaller
/// one, the larger cell is the floor of the smaller cell divided by `k`, on
/// both sides of the origin.
pub proof fn law_cell_sizes_nest(x: int, size: int, k: int)
    requires
        size > 0,
        k > 0,
    ensures
        x / (size * k) == (x / size) / k,
{
    let a = x / size;
    let b = a / k;
    let r1 = x % size;
    let r2 = a % k;
    lemma_fundamental_div_mod(x, size);
    lemma_fundamental_div_mod(a, k);
    lemma_mod_bound(x, size);
    lemma_mod_bound(a, k);
    assert(x == (size * k) * b + (size * r2 + r1) && 0 <= size * r2 + r1 < size * k) by (nonlinear_arith)
        requires
            x == size * a + r1,
            a == k * b + r2,
            0 <= r1 < size,
            0 <= r2 < k,
            size > 0,
    ;
    assert(size * k > 0) by (nonlinear_arith)
        requires
            size > 0,
            k > 0,
    ;
    lemma_fundamental_div_mod_converse_div(x, size * k, b, size * r2 + r1);
}

/// Directions that differ by a multiple of six are the same direction, so
/// `c.neighbor(d) == c.neighbor(d + 6)` and `c.rotate(k) == c.rotate(k + 6)`.
pub proof fn law_directions_repeat_every_six(d: int, k: int)
    ensures
        (d + 6 * k) % 6 == d % 6,
        0 <= d % 6 < 6,
{
    lemma_mod_multiples_vanish(k, d, 6);
    lemma_mod_bound(d, 6);
    assert(6 * k + d == d + 6 * k);
}

} // verus!
