//! Canonical hex coordinates for the wrapped world.
//!
//! The world is a hexagon of radius `n` in axial coordinates, wrapped so that
//! stepping off one edge re-enters on the opposite one. Two axial pairs name the
//! same tile exactly when they differ by a vector of the wraparound lattice,
//! which is generated by the mirror centers. The lattice is also the kernel of
//! `(q, r) -> (q - (3n + 1) * r) mod (3n^2 + 3n + 1)`, so that residue — the
//! pair's [`wrap_class`] — is the tile identity, and the canonical hexagon holds
//! exactly one pair of every class.
//!
//! [`Coord`] has private fields and no constructor that skips normalization, so
//! equality of coordinates is equality of tiles.
use vstd::prelude::*;
use vstd::arithmetic::div_mod::*;
use vstd::arithmetic::mul::*;

use crate::{Component, WORLD_RADIUS};

verus! {

/// Number of hex directions.
pub const DIRECTION_COUNT: usize = 6;

/// The six canonical direction vectors in axial form, pinned by the algorithm
/// version. Increasing the index by one steps to the next neighbor
/// counter-clockwise; the cube form is `(q, r, -q - r)`.
pub const DIRECTIONS: [(Component, Component); DIRECTION_COUNT] = [
    (1, 0),
    (1, -1),
    (0, -1),
    (-1, 0),
    (-1, 1),
    (0, 1),
];

/// Largest radius [`normalize`] accepts, `2^61 - 1`. The world's own radius is
/// far below it. Up to it, every intermediate of the lattice solve fits in
/// `i128`, and a residual stepped by a mirror center, which can reach
/// `4n + 2`, still fits in `i64`.
pub const MAX_WRAP_RADIUS: i64 = 0x1fff_ffff_ffff_ffff;

// ----------------------------------------------------------------------------
// The mathematical model.
// ----------------------------------------------------------------------------

/// The axial direction vector with index `d`, for `d` in `0..6`.
pub open spec fn direction_vector(d: int) -> (int, int) {
    if d == 0 {
        (1, 0)
    } else if d == 1 {
        (1, -1)
    } else if d == 2 {
        (0, -1)
    } else if d == 3 {
        (-1, 0)
    } else if d == 4 {
        (-1, 1)
    } else {
        (0, 1)
    }
}

/// Whether `(q, r)` lies in the canonical hexagon of radius `n`.
pub open spec fn in_domain_spec(n: int, q: int, r: int) -> bool {
    &&& -n <= q <= n
    &&& -n <= r <= n
    &&& -n <= -q - r <= n
}

/// Absolute value on the integers.
pub open spec fn abs(x: int) -> int {
    if x < 0 {
        -x
    } else {
        x
    }
}

/// Hex distance from the origin: `max(|q|, |r|, |q + r|)`.
pub open spec fn hex_norm(q: int, r: int) -> int {
    let a = abs(q);
    let b = abs(r);
    let c = abs(q + r);
    if a >= b && a >= c {
        a
    } else if b >= c {
        b
    } else {
        c
    }
}

/// Number of tiles in the canonical hexagon of radius `n`: `1 + 3n(n + 1)`.
pub open spec fn tile_count(n: int) -> int {
    3 * n * n + 3 * n + 1
}

/// The wraparound class of `(q, r)` in the world of radius `n`.
///
/// Two pairs name the same tile exactly when their classes are equal.
pub open spec fn wrap_class(n: int, q: int, r: int) -> int {
    (q - (3 * n + 1) * r) % tile_count(n)
}

/// One sixth of a turn on the cube form: direction `d` becomes `d + 1`.
pub open spec fn rotate_once_spec(v: (int, int, int)) -> (int, int, int) {
    (-v.2, -v.0, -v.1)
}

/// `k` applications of [`rotate_once_spec`].
pub open spec fn rotate_times(v: (int, int, int), k: nat) -> (int, int, int)
    decreases k,
{
    if k == 0 {
        v
    } else {
        rotate_once_spec(rotate_times(v, (k - 1) as nat))
    }
}

/// `k` sixths of a turn applied to an axial pair, through its cube form.
pub open spec fn rotate_axial(c: (int, int), k: nat) -> (int, int) {
    let v = rotate_times((c.0, c.1, -c.0 - c.1), k);
    (v.0, v.1)
}

/// Mirror center `i` of the wrapped hexagon of radius `n`: the `i`-th rotation
/// of `(2n + 1, -n, -n - 1)`.
pub open spec fn mirror_center(n: int, i: int) -> (int, int, int) {
    if i == 0 {
        (2 * n + 1, -n, -n - 1)
    } else if i == 1 {
        (n + 1, -2 * n - 1, n)
    } else if i == 2 {
        (-n, -n - 1, 2 * n + 1)
    } else if i == 3 {
        (-2 * n - 1, n, n + 1)
    } else if i == 4 {
        (-n - 1, 2 * n + 1, -n)
    } else {
        (n, n + 1, -2 * n - 1)
    }
}

/// Whether an `i64` center table is the mirror-center table for radius `n`.
pub open spec fn is_center_table(n: int, centers: [(i64, i64, i64); 6]) -> bool {
    forall|i: int|
        0 <= i < 6 ==> {
            let c = #[trigger] centers[i];
            (c.0 as int, c.1 as int, c.2 as int) == mirror_center(n, i)
        }
}

// ----------------------------------------------------------------------------
// Lemmas about the model.
// ----------------------------------------------------------------------------

/// The tile count of a positive radius is positive.
pub proof fn lemma_tile_count_positive(n: int)
    requires
        n >= 1,
    ensures
        tile_count(n) >= 7,
{
    assert(n * n >= 1) by (nonlinear_arith)
        requires
            n >= 1,
    ;
}

/// Adding `k` copies of the tile count to the class argument leaves the class
/// unchanged.
pub proof fn lemma_class_shift(n: int, x: int, k: int)
    requires
        n >= 1,
    ensures
        (x + k * tile_count(n)) % tile_count(n) == x % tile_count(n),
{
    lemma_tile_count_positive(n);
    let d = tile_count(n);
    assert(k * d == d * k) by (nonlinear_arith);
    lemma_mod_multiples_vanish(k, x, d);
}

/// Translating by a mirror center does not change the wraparound class.
pub proof fn lemma_mirror_center_class(n: int, i: int, q: int, r: int)
    requires
        n >= 1,
        0 <= i < 6,
    ensures
        wrap_class(n, q - mirror_center(n, i).0, r - mirror_center(n, i).1) == wrap_class(n, q, r),
        wrap_class(n, q + mirror_center(n, i).0, r + mirror_center(n, i).1) == wrap_class(n, q, r),
{
    let c = mirror_center(n, i);
    let d = tile_count(n);
    let x = q - (3 * n + 1) * r;
    // Each center's class argument is a multiple of the tile count.
    let k: int = if i == 0 {
        1
    } else if i == 1 {
        2
    } else if i == 2 {
        1
    } else if i == 3 {
        -1
    } else if i == 4 {
        -2
    } else {
        -1
    };
    assert(c.0 - (3 * n + 1) * c.1 == k * d) by (nonlinear_arith)
        requires
            c == mirror_center(n, i),
            0 <= i < 6,
            d == tile_count(n),
            k == (if i == 0 {
                1
            } else if i == 1 {
                2
            } else if i == 2 {
                1
            } else if i == 3 {
                -1
            } else if i == 4 {
                -2
            } else {
                -1
            }),
    ;
    assert((q - c.0) - (3 * n + 1) * (r - c.1) == x + (-k) * d) by (nonlinear_arith)
        requires
            c.0 - (3 * n + 1) * c.1 == k * d,
            x == q - (3 * n + 1) * r,
    ;
    assert((q + c.0) - (3 * n + 1) * (r + c.1) == x + k * d) by (nonlinear_arith)
        requires
            c.0 - (3 * n + 1) * c.1 == k * d,
            x == q - (3 * n + 1) * r,
    ;
    lemma_class_shift(n, x, -k);
    lemma_class_shift(n, x, k);
}

/// Outside the canonical hexagon, some mirror center brings a point strictly
/// closer to the origin. This is what makes greedy descent reach the domain.
pub proof fn lemma_some_center_improves(n: int, q: int, r: int)
    requires
        n >= 1,
        hex_norm(q, r) > n,
    ensures
        exists|i: int|
            0 <= i < 6 && #[trigger] hex_norm(q - mirror_center(n, i).0, r - mirror_center(n, i).1)
                < hex_norm(q, r),
{
    let m = hex_norm(q, r);
    let d0 = hex_norm(q - mirror_center(n, 0).0, r - mirror_center(n, 0).1);
    let d1 = hex_norm(q - mirror_center(n, 1).0, r - mirror_center(n, 1).1);
    let d2 = hex_norm(q - mirror_center(n, 2).0, r - mirror_center(n, 2).1);
    let d3 = hex_norm(q - mirror_center(n, 3).0, r - mirror_center(n, 3).1);
    let d4 = hex_norm(q - mirror_center(n, 4).0, r - mirror_center(n, 4).1);
    let d5 = hex_norm(q - mirror_center(n, 5).0, r - mirror_center(n, 5).1);
    assert(d0 < m || d1 < m || d2 < m || d3 < m || d4 < m || d5 < m);
}

/// If `(3n + 1) * t` lies in `[lo, hi]` with `hi - lo < 3n + 1` and the window
/// straddles no other multiple, `t` is pinned. Stated for the three windows the
/// uniqueness proof needs.
proof fn lemma_multiple_window(n: int, t: int, v: int)
    requires
        n >= 1,
        v == (3 * n + 1) * t,
        -2 * n <= v <= 3 * n,
    ensures
        t == 0,
{
    if t >= 1 {
        assert((3 * n + 1) * t >= 3 * n + 1) by (nonlinear_arith)
            requires
                t >= 1,
                n >= 1,
        ;
    } else if t <= -1 {
        assert((3 * n + 1) * t <= -(3 * n + 1)) by (nonlinear_arith)
            requires
                t <= -1,
                n >= 1,
        ;
    }
}

/// A nonzero difference of two canonical pairs is never a lattice vector.
pub(crate) proof fn lemma_small_difference_class(n: int, dq: int, dr: int, k: int)
    requires
        n >= 1,
        -2 * n <= dq <= 2 * n,
        -2 * n <= dr <= 2 * n,
        -2 * n <= dq + dr <= 2 * n,
        dq - (3 * n + 1) * dr == k * tile_count(n),
    ensures
        dq == 0 && dr == 0,
{
    let d = tile_count(n);
    // The difference is too small to be two tile counts away from zero.
    assert(-(6 * n * n + 2 * n) <= (3 * n + 1) * dr <= 6 * n * n + 2 * n) by (nonlinear_arith)
        requires
            n >= 1,
            -2 * n <= dr <= 2 * n,
    ;
    assert(-2 * d < k * d < 2 * d) by (nonlinear_arith)
        requires
            dq - (3 * n + 1) * dr == k * d,
            -2 * n <= dq <= 2 * n,
            -(6 * n * n + 2 * n) <= (3 * n + 1) * dr <= 6 * n * n + 2 * n,
            d == tile_count(n),
            n >= 1,
    ;
    assert(-2 < k < 2) by (nonlinear_arith)
        requires
            -2 * d < k * d < 2 * d,
            d > 0,
    ;
    if k == 0 {
        lemma_multiple_window(n, dr, (3 * n + 1) * dr);
    } else if k == 1 {
        // (3n + 1)(dr + n + 1) == dq + n, so dr == -n - 1 and dq == -n.
        assert((3 * n + 1) * (dr + n + 1) == dq + n) by (nonlinear_arith)
            requires
                dq - (3 * n + 1) * dr == k * d,
                k == 1,
                d == tile_count(n),
        ;
        lemma_multiple_window(n, dr + n + 1, dq + n);
    } else {
        assert((3 * n + 1) * (dr - n - 1) == dq - n) by (nonlinear_arith)
            requires
                dq - (3 * n + 1) * dr == k * d,
                k == -1,
                d == tile_count(n),
        ;
        assert((3 * n + 1) * (-(dr - n - 1)) == -((3 * n + 1) * (dr - n - 1))) by (nonlinear_arith);
        lemma_multiple_window(n, -(dr - n - 1), -(dq - n));
    }
}

/// The canonical hexagon holds at most one pair of every wraparound class:
/// two canonical pairs of the same class are the same pair.
pub proof fn lemma_class_unique(n: int, q1: int, r1: int, q2: int, r2: int)
    requires
        n >= 1,
        in_domain_spec(n, q1, r1),
        in_domain_spec(n, q2, r2),
        wrap_class(n, q1, r1) == wrap_class(n, q2, r2),
    ensures
        q1 == q2 && r1 == r2,
{
    lemma_tile_count_positive(n);
    let d = tile_count(n);
    let x1 = q1 - (3 * n + 1) * r1;
    let x2 = q2 - (3 * n + 1) * r2;
    lemma_fundamental_div_mod(x1, d);
    lemma_fundamental_div_mod(x2, d);
    let k = x1 / d - x2 / d;
    assert(x1 - x2 == k * d) by (nonlinear_arith)
        requires
            x1 == d * (x1 / d) + x1 % d,
            x2 == d * (x2 / d) + x2 % d,
            x1 % d == x2 % d,
            k == x1 / d - x2 / d,
    ;
    assert((q1 - q2) - (3 * n + 1) * (r1 - r2) == x1 - x2) by (nonlinear_arith)
        requires
            x1 == q1 - (3 * n + 1) * r1,
            x2 == q2 - (3 * n + 1) * r2,
    ;
    lemma_small_difference_class(n, q1 - q2, r1 - r2, k);
}

// ----------------------------------------------------------------------------
// Arithmetic helpers for the lattice solve.
// ----------------------------------------------------------------------------

/// `|x * y| <= bx * by` when `|x| <= bx` and `|y| <= by`.
proof fn lemma_mul_abs_bound(x: int, y: int, bx: int, by: int)
    requires
        -bx <= x <= bx,
        -by <= y <= by,
    ensures
        -(bx * by) <= x * y <= bx * by,
{
    assert(-(bx * by) <= x * y <= bx * by) by (nonlinear_arith)
        requires
            -bx <= x <= bx,
            -by <= y <= by,
    ;
}

/// The identities behind [`coarse_reduce`]: with `e_a` and `e_b` the rounding
/// errors of the two lattice coordinates, the residual is a small combination
/// of them, and it differs from the input by whole tile counts in class.
proof fn lemma_coarse_identities(
    n: int,
    q: int,
    r: int,
    a: int,
    b: int,
    ea: int,
    eb: int,
    rq: int,
    rr: int,
)
    requires
        ea == (2 * n + 1) * q + (n + 1) * r - tile_count(n) * a,
        eb == -n * q - (2 * n + 1) * r - tile_count(n) * b,
        rq == q - a * (2 * n + 1) - b * (n + 1),
        rr == r + a * n + b * (2 * n + 1),
    ensures
        tile_count(n) * rq == (2 * n + 1) * ea + (n + 1) * eb,
        tile_count(n) * rr == -n * ea - (2 * n + 1) * eb,
        tile_count(n) * (rq + rr) == (n + 1) * ea - n * eb,
        rq - (3 * n + 1) * rr == (q - (3 * n + 1) * r) + (-(a + 2 * b)) * tile_count(n),
{
    assert((2 * n + 1) * (2 * n + 1) - n * (n + 1) == 3 * n * n + 3 * n + 1) by (nonlinear_arith);
    assert((2 * n + 1) + (3 * n + 1) * n == 3 * n * n + 3 * n + 1) by (nonlinear_arith);
    assert((n + 1) + (3 * n + 1) * (2 * n + 1) == 2 * (3 * n * n + 3 * n + 1)) by (nonlinear_arith);
    lemma_coarse_atoms(
        n,
        2 * n + 1,
        n + 1,
        3 * n + 1,
        tile_count(n),
        q,
        r,
        a,
        b,
        ea,
        eb,
        rq,
        rr,
    );
}

/// [`lemma_coarse_identities`] with the radius-dependent coefficients held as
/// opaque values, so that every nonlinear step has degree two.
proof fn lemma_coarse_atoms(
    n: int,
    t: int,
    u: int,
    w: int,
    d: int,
    q: int,
    r: int,
    a: int,
    b: int,
    ea: int,
    eb: int,
    rq: int,
    rr: int,
)
    requires
        t == 2 * n + 1,
        u == n + 1,
        t * t - n * u == d,
        t + w * n == d,
        u + w * t == 2 * d,
        ea == t * q + u * r - d * a,
        eb == -n * q - t * r - d * b,
        rq == q - a * t - b * u,
        rr == r + a * n + b * t,
    ensures
        d * rq == t * ea + u * eb,
        d * rr == -n * ea - t * eb,
        d * (rq + rr) == u * ea - n * eb,
        rq - w * rr == (q - w * r) + (-(a + 2 * b)) * d,
{
    assert(a * (-n) == -(a * n) && b * (-t) == -(b * t) && (-t) * r == -(t * r)) by (nonlinear_arith);
    lemma_scale_combination(d, rq, q, a, t, b, u);
    lemma_scale_combination(d, rr, r, a, -n, b, -t);
    lemma_expand_error(t, d * a, t, q, u, r, ea);
    lemma_expand_error(u, d * b, -n, q, -t, r, eb);
    lemma_expand_error(-n, d * a, t, q, u, r, ea);
    lemma_expand_error(-t, d * b, -n, q, -t, r, eb);
    assert(d * q == (t * t) * q - (n * u) * q) by (nonlinear_arith)
        requires
            d == t * t - n * u,
    ;
    assert(d * r == (t * t) * r - (n * u) * r) by (nonlinear_arith)
        requires
            d == t * t - n * u,
    ;
    assert(u * (-n) == -(n * u) && (-n) * t == -(n * t) && (-t) * (-n) == n * t && (-t) * (-t)
        == t * t && u * (-t) == -(t * u) && (-n) * u == -(n * u)) by (nonlinear_arith);
    assert((u * (-n)) * q == -((n * u) * q) && ((-n) * t) * q == -((n * t) * q) && ((-t) * (
    -n)) * q == (n * t) * q && ((-t) * (-t)) * r == (t * t) * r && (u * (-t)) * r == -((t * u)
        * r) && ((-n) * u) * r == -((n * u) * r)) by (nonlinear_arith)
        requires
            u * (-n) == -(n * u),
            (-n) * t == -(n * t),
            (-t) * (-n) == n * t,
            (-t) * (-t) == t * t,
            u * (-t) == -(t * u),
            (-n) * u == -(n * u),
    ;
    assert((-n) * ea == -(n * ea) && (-t) * eb == -(t * eb) && (-n) * (d * a) == -(n * (d * a))
        && (-t) * (d * b) == -(t * (d * b))) by (nonlinear_arith);
    assert(d * (rq + rr) == d * rq + d * rr) by (nonlinear_arith);
    assert(t * ea - n * ea == u * ea) by (nonlinear_arith)
        requires
            u == t - n,
    ;
    assert(u * eb - t * eb == -(n * eb)) by (nonlinear_arith)
        requires
            t - u == n,
    ;
    assert(w * rr == w * r + a * (w * n) + b * (w * t)) by (nonlinear_arith)
        requires
            rr == r + a * n + b * t,
    ;
    assert(a * t + a * (w * n) == a * d) by (nonlinear_arith)
        requires
            t + w * n == d,
    ;
    assert(b * u + b * (w * t) == 2 * (b * d)) by (nonlinear_arith)
        requires
            u + w * t == 2 * d,
    ;
    assert((-(a + 2 * b)) * d == -(a * d) - 2 * (b * d)) by (nonlinear_arith);
    assert(a * d == d * a && b * d == d * b) by (nonlinear_arith);
}

/// `x == q - a * c1 - b * c2` scales to `d * x == d * q - c1 * (d * a) - c2 * (d * b)`.
proof fn lemma_scale_combination(d: int, x: int, q: int, a: int, c1: int, b: int, c2: int)
    requires
        x == q - a * c1 - b * c2,
    ensures
        d * x == d * q - c1 * (d * a) - c2 * (d * b),
{
    assert(d * x == d * q - c1 * (d * a) - c2 * (d * b)) by (nonlinear_arith)
        requires
            x == q - a * c1 - b * c2,
    ;
}

/// `p == c1 * q + c2 * r - e` scales to `k * p == (k * c1) * q + (k * c2) * r - k * e`.
proof fn lemma_expand_error(k: int, p: int, c1: int, q: int, c2: int, r: int, e: int)
    requires
        p == c1 * q + c2 * r - e,
    ensures
        k * p == (k * c1) * q + (k * c2) * r - k * e,
{
    lemma_mul_is_distributive_sub(k, c1 * q + c2 * r, e);
    lemma_mul_is_distributive_add(k, c1 * q, c2 * r);
    lemma_mul_is_associative(k, c1, q);
    lemma_mul_is_associative(k, c2, r);
}

/// If `d * x` is a combination `c1 * e1 + c2 * e2` of two rounding errors with
/// `-d <= 2 e < d`, then `|x| <= (c1 + c2 + 1) / 2`, stated as `2|x| <= c1 + c2`.
proof fn lemma_residual_bound(d: int, x: int, c1: int, c2: int, e1: int, e2: int)
    requires
        d > 0,
        c1 >= 0,
        c2 >= 0,
        -d <= 2 * e1 <= d,
        -d <= 2 * e2 <= d,
        d * x == c1 * e1 + c2 * e2,
    ensures
        -(c1 + c2) <= 2 * x <= c1 + c2,
{
    lemma_mul_abs_bound(c1, 2 * e1, c1, d);
    lemma_mul_abs_bound(c2, 2 * e2, c2, d);
    assert(d * (2 * x) == c1 * (2 * e1) + c2 * (2 * e2)) by (nonlinear_arith)
        requires
            d * x == c1 * e1 + c2 * e2,
    ;
    assert(-(c1 + c2) <= 2 * x <= c1 + c2) by (nonlinear_arith)
        requires
            d > 0,
            d * (2 * x) == c1 * (2 * e1) + c2 * (2 * e2),
            -(c1 * d) <= c1 * (2 * e1) <= c1 * d,
            -(c2 * d) <= c2 * (2 * e2) <= c2 * d,
    ;
}

// ----------------------------------------------------------------------------
// Executable coordinate arithmetic.
// ----------------------------------------------------------------------------

/// Normalizes any integer direction to an index in `0..6`.
///
/// Values differing by a multiple of six identify the same direction; the
/// Euclidean remainder is non-negative for a positive divisor.
pub fn direction_index(direction: i32) -> (index: usize)
    ensures
        index as int == direction as int % 6,
        index < DIRECTION_COUNT,
{
    match direction.checked_rem_euclid(6) {
        Some(rem) => rem as usize,
        None => 0,
    }
}

/// One step in index order on the cube form: direction `d` becomes `d + 1`.
///
/// An exact integer permutation with sign changes; six applications are the
/// identity and the inverse step is `(x, y, z) -> (-y, -z, -x)`.
pub fn rotate_once(v: (i64, i64, i64)) -> (w: (i64, i64, i64))
    requires
        v.0 > i64::MIN,
        v.1 > i64::MIN,
        v.2 > i64::MIN,
    ensures
        (w.0 as int, w.1 as int, w.2 as int) == rotate_once_spec(
            (v.0 as int, v.1 as int, v.2 as int),
        ),
{
    let (x, y, z) = v;
    (-z, -x, -y)
}

/// The six mirror centers for a wrapped hexagonal map of radius `n`: the
/// rotations of `(2n+1, -n, -n-1)` under [`rotate_once`].
pub fn mirror_centers(n: i64) -> (out: [(i64, i64, i64); DIRECTION_COUNT])
    requires
        -0x3fff_ffff_ffff_ffff <= n <= 0x3fff_ffff_ffff_ffff,
    ensures
        is_center_table(n as int, out),
{
    let mut out = [(0i64, 0i64, 0i64); DIRECTION_COUNT];
    let mut v = (2 * n + 1, -n, -n - 1);
    let mut i: usize = 0;
    while i < DIRECTION_COUNT
        invariant
            -0x3fff_ffff_ffff_ffff <= n <= 0x3fff_ffff_ffff_ffff,
            i <= DIRECTION_COUNT,
            i < DIRECTION_COUNT ==> (v.0 as int, v.1 as int, v.2 as int) == mirror_center(
                n as int,
                i as int,
            ),
            forall|j: int|
                0 <= j < i ==> {
                    let c = #[trigger] out[j];
                    (c.0 as int, c.1 as int, c.2 as int) == mirror_center(n as int, j)
                },
        decreases DIRECTION_COUNT - i,
    {
        out[i] = v;
        v = rotate_once(v);
        i = i + 1;
    }
    out
}

/// True if `(q, r)` is inside the canonical hexagonal domain of radius `n`.
///
/// `q` and `r` are bounded before `s` is formed, because `-q - r` overflows for
/// extreme inputs.
pub fn in_domain(n: i64, q: i64, r: i64) -> (inside: bool)
    requires
        -0x3fff_ffff_ffff_ffff <= n <= 0x3fff_ffff_ffff_ffff,
    ensures
        inside == in_domain_spec(n as int, q as int, r as int),
{
    if q < -n || q > n || r < -n || r > n {
        return false;
    }
    let s = -q - r;
    s >= -n && s <= n
}

/// `|x|` as an unsigned value.
fn magnitude(x: i64) -> (m: u64)
    requires
        x > i64::MIN,
    ensures
        m as int == abs(x as int),
{
    if x < 0 {
        (-x) as u64
    } else {
        x as u64
    }
}

/// Hex distance from the origin: `max(|q|, |r|, |s|)`.
///
/// Only called on coordinates already brought near the origin, so forming `s`
/// cannot overflow.
pub fn hex_distance_from_origin(q: i64, r: i64) -> (distance: u64)
    requires
        q > i64::MIN,
        r > i64::MIN,
        -i64::MAX <= q + r <= i64::MAX,
    ensures
        distance as int == hex_norm(q as int, r as int),
{
    let s = -q - r;
    let a = magnitude(q);
    let b = magnitude(r);
    let c = magnitude(s);
    if a >= b && a >= c {
        a
    } else if b >= c {
        b
    } else {
        c
    }
}

/// Round-half-up division by a positive divisor: the floor quotient, plus one
/// exactly when the remainder is at least half the divisor.
pub open spec fn round_half_up(x: int, d: int) -> int {
    x / d + if 2 * (x % d) >= d {
        1int
    } else {
        0int
    }
}

/// Round-half-up integer division for a possibly negative divisor.
///
/// The divisor's sign is moved onto the numerator first; the result is the
/// floor quotient plus one exactly when the remainder is at least half the
/// divisor.
pub fn div_nearest(num: i128, den: i128) -> (quotient: i128)
    requires
        den != 0,
        -0x4000_0000_0000_0000_0000_0000_0000_0000 <= den <= 0x4000_0000_0000_0000_0000_0000_0000_0000,
        den < 0 ==> num > i128::MIN,
    ensures
        ({
            let nn: int = if den < 0 { -num } else { num as int };
            let dd: int = if den < 0 { -den } else { den as int };
            &&& quotient == round_half_up(nn, dd)
            &&& -dd <= 2 * (nn - dd * quotient) < dd
        }),
{
    let (num, den) = if den < 0 {
        (-num, -den)
    } else {
        (num, den)
    };
    let quotient = match num.checked_div_euclid(den) {
        Some(v) => v,
        None => 0,
    };
    let remainder = match num.checked_rem_euclid(den) {
        Some(v) => v,
        None => 0,
    };
    proof {
        let x = num as int;
        let d = den as int;
        lemma_fundamental_div_mod(x, d);
        lemma_mod_bound(x, d);
        assert(x >= 0 ==> 0 <= x / d <= x) by (nonlinear_arith)
            requires
                d >= 1,
                x == d * (x / d) + x % d,
                0 <= x % d < d,
        ;
        assert(x < 0 ==> x <= x / d < 0) by (nonlinear_arith)
            requires
                d >= 1,
                x == d * (x / d) + x % d,
                0 <= x % d < d,
        ;
        assert(d >= 2 && x >= 0 ==> 2 * (x / d) <= x) by (nonlinear_arith)
            requires
                x == d * (x / d) + x % d,
                0 <= x % d < d,
        ;
    }
    proof {
        let x = num as int;
        let d = den as int;
        assert(d * (x / d + 1) == d * (x / d) + d) by (nonlinear_arith);
    }
    if 2 * remainder >= den {
        quotient + 1
    } else {
        quotient
    }
}

/// A rounded quotient of a dividend no larger than `d * m` is no larger in
/// magnitude than `m + 1`.
proof fn lemma_rounded_quotient_bound(d: int, a: int, x: int, m: int)
    requires
        d >= 1,
        m >= 0,
        -(d * m) <= x <= d * m,
        -d <= 2 * (x - d * a) <= d,
    ensures
        -(m + 1) <= a <= m + 1,
{
    assert(-(m + 1) <= a <= m + 1) by (nonlinear_arith)
        requires
            d >= 1,
            m >= 0,
            -(d * m) <= x <= d * m,
            -d <= 2 * (x - d * a) <= d,
    ;
}

/// Brings an arbitrary `i64` pair within one lattice cell of the origin in one
/// step, by solving for the nearest wraparound-lattice multiple.
///
/// The wraparound lattice is generated by mirror centers `0` and `1`, whose
/// axial forms are `(2n+1, -n)` and `(n+1, -(2n+1))`. Inverting that basis gives
/// the real multiples directly; rounding each to the nearest integer leaves a
/// residual within hex distance `2n + 1` of the origin, which the greedy fix-up
/// in [`normalize`] then walks into the canonical hexagon.
///
/// The solve is `i128`: products such as `(2n+1) * q` exceed the `i64` range
/// for `|q|` near `i64::MAX`. The residual is small and returns to `i64`.
pub fn coarse_reduce(n: i64, q: i64, r: i64) -> (residual: (i64, i64))
    requires
        1 <= n <= MAX_WRAP_RADIUS,
    ensures
        wrap_class(n as int, residual.0 as int, residual.1 as int) == wrap_class(
            n as int,
            q as int,
            r as int,
        ),
        hex_norm(residual.0 as int, residual.1 as int) <= 2 * n + 1,
        ({
            let ni = n as int;
            let a = round_half_up((2 * ni + 1) * q + (ni + 1) * r, tile_count(ni));
            let b = round_half_up(-ni * q - (2 * ni + 1) * r, tile_count(ni));
            &&& residual.0 == q - a * (2 * ni + 1) - b * (ni + 1)
            &&& residual.1 == r + a * ni + b * (2 * ni + 1)
        }),
{
    let n128 = n as i128;
    proof {
        assert(0 <= n128 * n128 <= 0x2000_0000_0000_0000 * 0x2000_0000_0000_0000 && 3 * n128
            * n128 == 3 * (n128 * n128)) by (nonlinear_arith)
            requires
                1 <= n128 <= 0x2000_0000_0000_0000,
        ;
    }
    let two_n_plus_1 = 2 * n128 + 1;
    let determinant = -(3 * n128 * n128 + 3 * n128 + 1);

    let q128 = q as i128;
    let r128 = r as i128;
    let ghost bound: int = 0x8000_0000_0000_0000;
    let ghost t = two_n_plus_1 as int;
    let ghost u = n128 + 1;
    let ghost ni = n as int;
    proof {
        lemma_mul_abs_bound(t, q128 as int, t, bound);
        lemma_mul_abs_bound(u, r128 as int, u, bound);
        lemma_mul_abs_bound(ni, q128 as int, ni, bound);
        lemma_mul_abs_bound(t, r128 as int, t, bound);
        lemma_mul_abs_bound(t, bound, 0x4000_0000_0000_0000, bound);
        lemma_mul_abs_bound(u, bound, 0x4000_0000_0000_0000, bound);
        lemma_mul_abs_bound(ni, bound, 0x4000_0000_0000_0000, bound);
        assert(-two_n_plus_1 * q128 == -(two_n_plus_1 * q128)) by (nonlinear_arith);
    }
    let num_a = -two_n_plus_1 * q128 - (n128 + 1) * r128;
    let num_b = n128 * q128 + two_n_plus_1 * r128;
    let a = div_nearest(num_a, determinant);
    let b = div_nearest(num_b, determinant);

    let ghost d = tile_count(n as int);
    let ghost xa = -(num_a as int);
    let ghost xb = -(num_b as int);
    let ghost m: int = 0x1_0000_0000_0000_0000;
    proof {
        assert(determinant == -d);
        // Both numerators are at most (3n + 2) 2^63, which is at most 2^64 d.
        assert(t * bound + u * bound <= d * m && ni * bound + t * bound <= d * m)
            by (nonlinear_arith)
            requires
                t == 2 * ni + 1,
                u == ni + 1,
                d == 3 * ni * ni + 3 * ni + 1,
                ni >= 1,
                bound == 0x8000_0000_0000_0000,
                m == 0x1_0000_0000_0000_0000,
        ;
        lemma_rounded_quotient_bound(d, a as int, xa, m);
        lemma_rounded_quotient_bound(d, b as int, xb, m);
        lemma_mul_abs_bound(a as int, t, m + 1, 0x4000_0000_0000_0000);
        lemma_mul_abs_bound(b as int, u, m + 1, 0x4000_0000_0000_0000);
        lemma_mul_abs_bound(a as int, ni, m + 1, 0x4000_0000_0000_0000);
        lemma_mul_abs_bound(b as int, t, m + 1, 0x4000_0000_0000_0000);
    }
    // The residual is bounded before it is computed, so the last subtraction
    // and addition below are known not to overflow.
    let ghost rq: int = q - a * t - b * u;
    let ghost rr: int = r + a * ni + b * t;
    proof {
        let ea = xa - d * a;
        let eb = xb - d * b;
        assert(xa == (2 * ni + 1) * q + (ni + 1) * r);
        assert(xb == -ni * q - (2 * ni + 1) * r) by (nonlinear_arith)
            requires
                xb == -((ni * q) + (2 * ni + 1) * r),
        ;
        lemma_coarse_identities(
            ni,
            q as int,
            r as int,
            a as int,
            b as int,
            ea,
            eb,
            rq,
            rr,
        );
        assert((-ni) * ea == ni * (-ea) && (2 * ni + 1) * eb == -((2 * ni + 1) * (-eb)) && ni
            * eb == -(ni * (-eb))) by (nonlinear_arith);
        lemma_residual_bound(d, rq, 2 * ni + 1, ni + 1, ea, eb);
        lemma_residual_bound(d, rr, ni, 2 * ni + 1, -ea, -eb);
        lemma_residual_bound(d, rq + rr, ni + 1, ni, ea, -eb);
        lemma_class_shift(ni, q - (3 * ni + 1) * r, -(a + 2 * b));
    }
    let residual_q = q128 - a * two_n_plus_1 - b * (n128 + 1);
    let residual_r = r128 + a * n128 + b * two_n_plus_1;
    (residual_q as i64, residual_r as i64)
}

/// Arithmetic wraparound normalization onto the canonical hexagonal domain of
/// radius `n`.
///
/// Translates by mirror centers until the coordinate is canonical. The six
/// centers are the Voronoi-relevant vectors of the wraparound lattice and the
/// canonical hexagon is an exact fundamental domain of it, so each pair has
/// exactly one canonical representative (see [`lemma_class_unique`]) and
/// greedy descent on hex distance reaches it: outside the domain some center
/// always brings the point strictly closer (see
/// [`lemma_some_center_improves`]).
///
/// `n` and the center table are parameters so the algorithm can be exercised
/// exhaustively at a small radius.
pub fn normalize(n: i64, centers: &[(i64, i64, i64); DIRECTION_COUNT], q: i64, r: i64) -> (canonical: (i64, i64))
    requires
        1 <= n <= MAX_WRAP_RADIUS,
        is_center_table(n as int, *centers),
    ensures
        in_domain_spec(n as int, canonical.0 as int, canonical.1 as int),
        wrap_class(n as int, canonical.0 as int, canonical.1 as int) == wrap_class(
            n as int,
            q as int,
            r as int,
        ),
{
    // Overwhelmingly the common case: neighbor steps and local offsets.
    if in_domain(n, q, r) {
        return (q, r);
    }

    let (mut q, mut r) = coarse_reduce(n, q, r);
    let ghost class = wrap_class(n as int, q as int, r as int);

    let mut distance = hex_distance_from_origin(q, r);
    while distance > n as u64
        invariant
            1 <= n <= MAX_WRAP_RADIUS,
            is_center_table(n as int, *centers),
            distance as int == hex_norm(q as int, r as int),
            distance <= 2 * n + 1,
            wrap_class(n as int, q as int, r as int) == class,
        decreases distance,
    {
        let mut best: Option<(u64, i64, i64)> = None;
        let ghost mut best_index: int = 0;
        let mut i: usize = 0;
        // Fixed order 0..6, never over a set.
        while i < DIRECTION_COUNT
            invariant
                1 <= n <= MAX_WRAP_RADIUS,
                is_center_table(n as int, *centers),
                distance as int == hex_norm(q as int, r as int),
                distance <= 2 * n + 1,
                i <= DIRECTION_COUNT,
                match best {
                    None => forall|j: int|
                        0 <= j < i ==> #[trigger] hex_norm(
                            q - mirror_center(n as int, j).0,
                            r - mirror_center(n as int, j).1,
                        ) >= distance,
                    Some(found) => {
                        &&& 0 <= best_index < DIRECTION_COUNT
                        &&& found.0 < distance
                        &&& found.0 as int == hex_norm(found.1 as int, found.2 as int)
                        &&& found.1 == q - mirror_center(n as int, best_index).0
                        &&& found.2 == r - mirror_center(n as int, best_index).1
                    },
                },
            decreases DIRECTION_COUNT - i,
        {
            let center = centers[i];
            assert(center == centers[i as int]);
            let candidate_q = q - center.0;
            let candidate_r = r - center.1;
            let candidate_distance = hex_distance_from_origin(candidate_q, candidate_r);
            if candidate_distance < distance {
                let better = match best {
                    None => true,
                    Some(found) => candidate_distance < found.0,
                };
                if better {
                    best = Some((candidate_distance, candidate_q, candidate_r));
                    proof {
                        best_index = i as int;
                    }
                }
            }
            i = i + 1;
        }
        match best {
            Some(found) => {
                proof {
                    lemma_mirror_center_class(n as int, best_index, q as int, r as int);
                }
                distance = found.0;
                q = found.1;
                r = found.2;
            },
            None => {
                proof {
                    lemma_some_center_improves(n as int, q as int, r as int);
                    let j = choose|j: int|
                        0 <= j < 6 && #[trigger] hex_norm(
                            q - mirror_center(n as int, j).0,
                            r - mirror_center(n as int, j).1,
                        ) < hex_norm(q as int, r as int);
                    assert(hex_norm(
                        q - mirror_center(n as int, j).0,
                        r - mirror_center(n as int, j).1,
                    ) >= distance);
                    assert(false);
                }
            },
        }
    }
    (q, r)
}

// ----------------------------------------------------------------------------
// Canonical coordinates.
// ----------------------------------------------------------------------------

/// Mirror centers for this world's radius: the rotations of
/// `(2N + 1, -N, -N - 1)` for `N = 32767`. Two of the six have components at
/// `±65535`, outside [`Component`] range, which is why every intermediate is
/// `i64`.
pub const MIRROR_CENTERS: [(i64, i64, i64); DIRECTION_COUNT] = [
    (65_535, -32_767, -32_768),
    (32_768, -65_535, 32_767),
    (-32_767, -32_768, 65_535),
    (-65_535, 32_767, 32_768),
    (-32_768, 65_535, -32_767),
    (32_767, 32_768, -65_535),
];

/// The cube form `(q, r, -q - r)` of an axial pair.
pub open spec fn cube(c: (int, int)) -> (int, int, int) {
    (c.0, c.1, -c.0 - c.1)
}

/// Whether the axial pair `c` is the canonical representative of `(q, r)` in
/// this world: it lies in the canonical hexagon and names the same tile.
pub open spec fn names_tile(c: (int, int), q: int, r: int) -> bool {
    &&& in_domain_spec(WORLD_RADIUS as int, c.0, c.1)
    &&& wrap_class(WORLD_RADIUS as int, c.0, c.1) == wrap_class(WORLD_RADIUS as int, q, r)
}

/// A canonical axial coordinate: one tile of the wrapped world.
///
/// The only ways to obtain one are [`Coord::new`], [`Coord::origin`], and
/// operations such as [`Coord::neighbor`] that normalize before returning, so
/// the derived equality, hash, and order are tile identity.
#[derive(Debug, Clone, Copy, PartialEq, Eq, Structural, Hash, PartialOrd, Ord)]
pub struct Coord {
    q: Component,
    r: Component,
}

impl View for Coord {
    type V = (int, int);

    /// The axial pair `(q, r)`.
    closed spec fn view(&self) -> (int, int) {
        (self.q as int, self.r as int)
    }
}

impl Coord {
    /// Every coordinate lies in the canonical hexagon.
    #[verifier::type_invariant]
    spec fn canonical(self) -> bool {
        in_domain_spec(WORLD_RADIUS as int, self.q as int, self.r as int)
    }

    /// The canonical origin, `(0, 0, 0)`.
    pub fn origin() -> (c: Coord)
        ensures
            c@ == (0int, 0int),
    {
        Coord { q: 0, r: 0 }
    }

    /// Normalizes any axial pair into the canonical wrapped map.
    ///
    /// This is the single entry point for unwrapped or intermediate
    /// coordinates. It is total: every `i64` pair has a canonical
    /// representative, and an already-canonical pair comes back unchanged.
    pub fn new(q: i64, r: i64) -> (c: Coord)
        ensures
            names_tile(c@, q as int, r as int),
    {
        let (nq, nr) = normalize(WORLD_RADIUS, &MIRROR_CENTERS, q, r);
        Coord { q: nq as Component, r: nr as Component }
    }

    /// The axial `q` component.
    pub fn q(self) -> (q: Component)
        ensures
            q as int == self@.0,
            in_domain_spec(WORLD_RADIUS as int, self@.0, self@.1),
    {
        proof {
            use_type_invariant(&self);
        }
        self.q
    }

    /// The axial `r` component.
    pub fn r(self) -> (r: Component)
        ensures
            r as int == self@.1,
            in_domain_spec(WORLD_RADIUS as int, self@.0, self@.1),
    {
        proof {
            use_type_invariant(&self);
        }
        self.r
    }

    /// The derived cube component, `-q - r`, always in [`Component`] range for
    /// a canonical coordinate.
    pub fn s(self) -> (s: Component)
        ensures
            s as int == -self@.0 - self@.1,
            in_domain_spec(WORLD_RADIUS as int, self@.0, self@.1),
    {
        proof {
            use_type_invariant(&self);
        }
        let s = -(self.q as i64) - (self.r as i64);
        s as Component
    }

    /// The neighbor in the given direction, normalized. Any integer direction
    /// is accepted; see [`direction_index`].
    pub fn neighbor(self, direction: i32) -> (n: Coord)
        ensures
            names_tile(
                n@,
                self@.0 + direction_vector(direction as int % 6).0,
                self@.1 + direction_vector(direction as int % 6).1,
            ),
    {
        let index = direction_index(direction);
        let (dq, dr) = DIRECTIONS[index];
        assert(dq as int == direction_vector(index as int).0 && dr as int == direction_vector(
            index as int,
        ).1);
        Coord::new(self.q as i64 + dq as i64, self.r as i64 + dr as i64)
    }

    /// This coordinate rotated `steps` sixths of a turn about the canonical
    /// origin, in the direction of increasing direction index.
    ///
    /// Exact integer arithmetic, and the canonical domain is six-fold symmetric
    /// about the origin, so the rotated pair is already canonical. `steps` is
    /// signed and unbounded; it is normalized like any direction.
    pub fn rotate(self, steps: i32) -> (rotated: Coord)
        ensures
            rotated@ == rotate_axial(self@, (steps as int % 6) as nat),
    {
        proof {
            use_type_invariant(&self);
        }
        let mut v = (self.q as i64, self.r as i64, -(self.q as i64) - (self.r as i64));
        let steps = direction_index(steps);
        let mut i: usize = 0;
        while i < steps
            invariant
                i <= steps,
                (v.0 as int, v.1 as int, v.2 as int) == rotate_times(cube(self@), i as nat),
                v.0 + v.1 + v.2 == 0,
                in_domain_spec(WORLD_RADIUS as int, v.0 as int, v.1 as int),
            decreases steps - i,
        {
            v = rotate_once(v);
            i = i + 1;
        }
        let rotated = Coord::new(v.0, v.1);
        proof {
            lemma_class_unique(
                WORLD_RADIUS as int,
                rotated@.0,
                rotated@.1,
                v.0 as int,
                v.1 as int,
            );
        }
        rotated
    }

    /// The cell address containing this coordinate for a cell edge of
    /// `size_hexes`, dividing `q` and `r` independently.
    ///
    /// Floor division, so cell addresses are correct across the origin: with
    /// size 32, `q = -1` and `q = -32` are both in cell `-1`.
    pub fn cell(self, size_hexes: u32) -> (cell: (i64, i64))
        requires
            size_hexes > 0,
        ensures
            cell.0 as int == self@.0 / size_hexes as int,
            cell.1 as int == self@.1 / size_hexes as int,
    {
        let size = size_hexes as i64;
        proof {
            use_type_invariant(&self);
            lemma_floor_div_small(self.q as int, size as int);
            lemma_floor_div_small(self.r as int, size as int);
        }
        let cq = match (self.q as i64).checked_div_euclid(size) {
            Some(v) => v,
            None => 0,
        };
        let cr = match (self.r as i64).checked_div_euclid(size) {
            Some(v) => v,
            None => 0,
        };
        (cq, cr)
    }

    /// This coordinate's offset within its [`cell`](Coord::cell), in `0..size`
    /// on both axes.
    pub fn cell_offset(self, size_hexes: u32) -> (offset: (i64, i64))
        requires
            size_hexes > 0,
        ensures
            offset.0 as int == self@.0 % size_hexes as int,
            offset.1 as int == self@.1 % size_hexes as int,
    {
        let size = size_hexes as i64;
        let oq = match (self.q as i64).checked_rem_euclid(size) {
            Some(v) => v,
            None => 0,
        };
        let or = match (self.r as i64).checked_rem_euclid(size) {
            Some(v) => v,
            None => 0,
        };
        (oq, or)
    }
}

/// Floor division of a small value by a positive divisor stays small.
proof fn lemma_floor_div_small(x: int, d: int)
    requires
        -WORLD_RADIUS <= x <= WORLD_RADIUS,
        d >= 1,
    ensures
        -WORLD_RADIUS <= x / d <= WORLD_RADIUS,
{
    lemma_fundamental_div_mod(x, d);
    lemma_mod_bound(x, d);
    assert(-WORLD_RADIUS <= x / d <= WORLD_RADIUS) by (nonlinear_arith)
        requires
            -WORLD_RADIUS <= x <= WORLD_RADIUS,
            d >= 1,
            x == d * (x / d) + x % d,
            0 <= x % d < d,
    ;
}

/// A coordinate is determined by its axial pair.
pub proof fn lemma_view_determines_coord(a: Coord, b: Coord)
    ensures
        a@ == b@ <==> a == b,
{
}

} // verus!
