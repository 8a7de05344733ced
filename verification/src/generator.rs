//! The integer side of the generator: which tiles a hexagonal region names, in
//! which order, and the stand-in terrain an elevation band alone implies.
use vstd::prelude::*;

use crate::coord::{hex_norm, names_tile, Coord};
use crate::tile::{elevation_is_water, terrain_is_water, Elevation, Terrain};
use crate::topology::lemma_near_pairs_of_one_class;
use crate::WORLD_RADIUS;

verus! {

/// The lowest `dr` in row `dq` of a hexagon of radius `radius`.
pub open spec fn row_low(radius: int, dq: int) -> int {
    if -radius >= -dq - radius {
        -radius
    } else {
        -dq - radius
    }
}

/// The highest `dr` in row `dq` of a hexagon of radius `radius`.
pub open spec fn row_high(radius: int, dq: int) -> int {
    if radius <= -dq + radius {
        radius
    } else {
        -dq + radius
    }
}

/// Row `dq` of the hexagon of radius `radius`: the offsets `(dq, dr)` in
/// ascending `dr`.
pub open spec fn hex_row(radius: int, dq: int) -> Seq<(int, int)> {
    Seq::new((row_high(radius, dq) - row_low(radius, dq) + 1) as nat, |i: int| (dq, row_low(radius, dq) + i))
}

/// The first `k` rows of the hexagon of radius `radius`, from `dq = -radius`
/// upward.
pub open spec fn hex_rows(radius: int, k: nat) -> Seq<(int, int)>
    decreases k,
{
    if k == 0 {
        Seq::empty()
    } else {
        hex_rows(radius, (k - 1) as nat) + hex_row(radius, -radius + k - 1)
    }
}

/// Every offset within `radius` steps of a center, in hex distance, ordered by
/// ascending `dq` and within that ascending `dr`.
pub open spec fn hex_offsets(radius: int) -> Seq<(int, int)> {
    hex_rows(radius, (2 * radius + 1) as nat)
}

/// Strict lexicographic order on offsets.
pub open spec fn offset_before(a: (int, int), b: (int, int)) -> bool {
    a.0 < b.0 || (a.0 == b.0 && a.1 < b.1)
}

/// Twice the number of offsets in the first `k` rows of a hexagon of radius
/// `radius`, in closed form.
pub open spec fn twice_rows_len(radius: int, k: int) -> int {
    if k <= radius + 1 {
        2 * k * (radius + 1) + k * (k - 1)
    } else {
        let j = k - radius - 1;
        2 * (radius + 1) * (radius + 1) + radius * (radius + 1) + 4 * radius * j - j * (j - 1)
    }
}

/// One more row adds that row's length.
proof fn lemma_twice_rows_len_step(radius: int, k: int)
    requires
        radius >= 0,
        0 <= k <= 2 * radius,
    ensures
        twice_rows_len(radius, k + 1) == twice_rows_len(radius, k) + 2 * (row_high(radius, -radius
            + k) - row_low(radius, -radius + k) + 1),
{
    let dq = -radius + k;
    if k + 1 <= radius + 1 {
        assert(twice_rows_len(radius, k + 1) - twice_rows_len(radius, k) == 2 * (radius + 1) + 2
            * k) by (nonlinear_arith)
            requires
                k + 1 <= radius + 1,
                twice_rows_len(radius, k + 1) == 2 * (k + 1) * (radius + 1) + (k + 1) * k,
                twice_rows_len(radius, k) == 2 * k * (radius + 1) + k * (k - 1),
        ;
    } else if k == radius + 1 {
        assert(twice_rows_len(radius, k + 1) - twice_rows_len(radius, k) == 4 * radius)
            by (nonlinear_arith)
            requires
                k == radius + 1,
                twice_rows_len(radius, k) == 2 * k * (radius + 1) + k * (k - 1),
                twice_rows_len(radius, k + 1) == 2 * (radius + 1) * (radius + 1) + radius * (radius
                    + 1) + 4 * radius * (k + 1 - radius - 1) - (k + 1 - radius - 1) * (k + 1
                    - radius - 1 - 1),
        ;
    } else {
        let j = k - radius - 1;
        assert(twice_rows_len(radius, k + 1) - twice_rows_len(radius, k) == 4 * radius - 2 * j)
            by (nonlinear_arith)
            requires
                j == k - radius - 1,
                j >= 1,
                twice_rows_len(radius, k + 1) == 2 * (radius + 1) * (radius + 1) + radius * (radius
                    + 1) + 4 * radius * (k + 1 - radius - 1) - (k + 1 - radius - 1) * (k + 1
                    - radius - 1 - 1),
                twice_rows_len(radius, k) == 2 * (radius + 1) * (radius + 1) + radius * (radius
                    + 1) + 4 * radius * (k - radius - 1) - (k - radius - 1) * (k - radius - 1
                    - 1),
        ;
    }
}

/// The whole hexagon has `1 + 3 * radius * (radius + 1)` offsets.
proof fn lemma_twice_rows_len_total(radius: int)
    requires
        radius >= 0,
    ensures
        twice_rows_len(radius, 2 * radius + 1) == 2 * (1 + 3 * radius * (radius + 1)),
{
    let k = 2 * radius + 1;
    if radius == 0 {
        assert(twice_rows_len(radius, k) == 2);
    } else {
        assert(twice_rows_len(radius, k) == 2 * (1 + 3 * radius * (radius + 1))) by (nonlinear_arith)
            requires
                radius >= 1,
                k == 2 * radius + 1,
                twice_rows_len(radius, k) == 2 * (radius + 1) * (radius + 1) + radius * (radius
                    + 1) + 4 * radius * (k - radius - 1) - (k - radius - 1) * (k - radius - 1 - 1),
        ;
    }
}

/// The coordinates of a hexagonal region of radius `radius` around `center`,
/// in the order of [`hex_offsets`]: ascending `dq`, and within that ascending
/// `dr`.
///
/// Coordinates are normalized, so a region straddling a wrapped edge returns
/// the canonical representative of each tile. Radius is limited to the world
/// radius: beyond it the requested hexagon is larger than the world and would
/// name some tiles more than once.
pub fn region_coords(center: Coord, radius: u32) -> (coords: Vec<Coord>)
    requires
        radius <= WORLD_RADIUS,
    ensures
        coords@.len() == 1 + 3 * radius * (radius + 1),
        coords@.len() == hex_offsets(radius as int).len(),
        forall|i: int|
            0 <= i < coords@.len() ==> names_tile(
                #[trigger] coords@[i]@,
                center@.0 + hex_offsets(radius as int)[i].0,
                center@.1 + hex_offsets(radius as int)[i].1,
            ),
        forall|i: int|
            0 <= i < hex_offsets(radius as int).len() ==> hex_norm(
                #[trigger] hex_offsets(radius as int)[i].0,
                hex_offsets(radius as int)[i].1,
            ) <= radius,
        forall|i: int, j: int|
            0 <= i < j < hex_offsets(radius as int).len() ==> offset_before(
                #[trigger] hex_offsets(radius as int)[i],
                #[trigger] hex_offsets(radius as int)[j],
            ),
        forall|i: int, j: int|
            0 <= i < j < coords@.len() ==> #[trigger] coords@[i] != #[trigger] coords@[j],
{
    let radius = radius as i64;
    let q = center.q() as i64;
    let r = center.r() as i64;
    let ghost rad = radius as int;
    let mut out: Vec<Coord> = Vec::new();
    let ghost mut offsets: Seq<(int, int)> = Seq::empty();
    let mut dq = -radius;
    proof {
        assert(twice_rows_len(rad, 0) == 0);
    }
    while dq <= radius
        invariant
            0 <= rad <= WORLD_RADIUS,
            radius == rad,
            -rad <= dq <= rad + 1,
            q == center@.0,
            r == center@.1,
            -WORLD_RADIUS <= q <= WORLD_RADIUS,
            -WORLD_RADIUS <= r <= WORLD_RADIUS,
            offsets == hex_rows(rad, (dq + rad) as nat),
            2 * offsets.len() == twice_rows_len(rad, dq + rad),
            out@.len() == offsets.len(),
            forall|i: int|
                0 <= i < out@.len() ==> names_tile(
                    #[trigger] out@[i]@,
                    q + offsets[i].0,
                    r + offsets[i].1,
                ),
            forall|i: int|
                0 <= i < offsets.len() ==> hex_norm(#[trigger] offsets[i].0, offsets[i].1) <= rad
                    && offsets[i].0 < dq,
            forall|i: int, j: int|
                0 <= i < j < offsets.len() ==> offset_before(
                    #[trigger] offsets[i],
                    #[trigger] offsets[j],
                ),
        decreases rad + 1 - dq,
    {
        let low = if -radius >= -dq - radius {
            -radius
        } else {
            -dq - radius
        };
        let high = if radius <= -dq + radius {
            radius
        } else {
            -dq + radius
        };
        let ghost before = offsets;
        let mut dr = low;
        while dr <= high
            invariant
                0 <= rad <= WORLD_RADIUS,
                radius == rad,
                -rad <= dq <= rad,
                low == row_low(rad, dq as int),
                high == row_high(rad, dq as int),
                low <= dr <= high + 1,
                q == center@.0,
                r == center@.1,
                -WORLD_RADIUS <= q <= WORLD_RADIUS,
                -WORLD_RADIUS <= r <= WORLD_RADIUS,
                before == hex_rows(rad, (dq + rad) as nat),
                offsets == before + hex_row(rad, dq as int).take(dr - low),
                out@.len() == offsets.len(),
                forall|i: int|
                    0 <= i < out@.len() ==> names_tile(
                        #[trigger] out@[i]@,
                        q + offsets[i].0,
                        r + offsets[i].1,
                    ),
                forall|i: int|
                    0 <= i < offsets.len() ==> hex_norm(#[trigger] offsets[i].0, offsets[i].1)
                        <= rad && offset_before(offsets[i], (dq as int, dr as int)),
                forall|i: int, j: int|
                    0 <= i < j < offsets.len() ==> offset_before(
                        #[trigger] offsets[i],
                        #[trigger] offsets[j],
                    ),
            decreases high + 1 - dr,
        {
            out.push(Coord::new(q + dq, r + dr));
            proof {
                assert(hex_row(rad, dq as int).take(dr - low + 1) =~= hex_row(
                    rad,
                    dq as int,
                ).take(dr - low).push((dq as int, dr as int)));
                offsets = offsets.push((dq as int, dr as int));
            }
            dr = dr + 1;
        }
        proof {
            assert(hex_row(rad, dq as int).take(high - low + 1) =~= hex_row(rad, dq as int));
            lemma_twice_rows_len_step(rad, dq + rad);
            assert(hex_rows(rad, (dq + rad + 1) as nat) == hex_rows(rad, (dq + rad) as nat)
                + hex_row(rad, dq as int));
        }
        dq = dq + 1;
    }
    proof {
        lemma_twice_rows_len_total(rad);
        assert forall|i: int, j: int| 0 <= i < j < out@.len() implies #[trigger] out@[i]
            != #[trigger] out@[j] by {
            if out@[i] == out@[j] {
                let a = offsets[i];
                let b = offsets[j];
                assert(names_tile(out@[i]@, q + a.0, r + a.1));
                assert(names_tile(out@[j]@, q + b.0, r + b.1));
                lemma_near_pairs_of_one_class(q + a.0, r + a.1, q + b.0, r + b.1);
            }
        }
    }
    out
}

/// A stand-in terrain derived from the elevation band alone, for callers that
/// have no climate: water where there is water, and the land bands rising
/// through plains, hills, mountain, and alpine.
pub fn provisional_terrain(band: Elevation) -> (terrain: Terrain)
    ensures
        terrain == provisional_terrain_spec(band),
{
    match band {
        Elevation::DeepWater => Terrain::DeepOcean,
        Elevation::ShallowWater => Terrain::ShallowSea,
        Elevation::Lowland => Terrain::Plains,
        Elevation::Upland => Terrain::Hills,
        Elevation::Highland => Terrain::Mountain,
        Elevation::Mountain => Terrain::Alpine,
    }
}

/// The stand-in terrain of an elevation band.
pub open spec fn provisional_terrain_spec(band: Elevation) -> Terrain {
    match band {
        Elevation::DeepWater => Terrain::DeepOcean,
        Elevation::ShallowWater => Terrain::ShallowSea,
        Elevation::Lowland => Terrain::Plains,
        Elevation::Upland => Terrain::Hills,
        Elevation::Highland => Terrain::Mountain,
        Elevation::Mountain => Terrain::Alpine,
    }
}

/// The stand-in terrain partitions water and land the same way the band does.
pub proof fn law_provisional_terrain_keeps_the_shoreline(band: Elevation)
    ensures
        terrain_is_water(provisional_terrain_spec(band)) == elevation_is_water(band),
{
}

/// The stand-in terrain, band by band: the two water bands are deep ocean and
/// shallow sea, and the land bands rise through plains, hills, mountain, and
/// alpine.
pub proof fn law_provisional_terrain_rises_with_the_band(band: Elevation)
    ensures
        band == Elevation::DeepWater ==> provisional_terrain_spec(band) == Terrain::DeepOcean,
        band == Elevation::ShallowWater ==> provisional_terrain_spec(band) == Terrain::ShallowSea,
        band == Elevation::Lowland ==> provisional_terrain_spec(band) == Terrain::Plains,
        band == Elevation::Upland ==> provisional_terrain_spec(band) == Terrain::Hills,
        band == Elevation::Highland ==> provisional_terrain_spec(band) == Terrain::Mountain,
        band == Elevation::Mountain ==> provisional_terrain_spec(band) == Terrain::Alpine,
{
}

/// Distinct bands give distinct stand-in terrains, so the tile terrain never
/// hides a change of band.
pub proof fn law_provisional_terrain_tells_bands_apart(a: Elevation, b: Elevation)
    ensures
        a != b ==> provisional_terrain_spec(a) != provisional_terrain_spec(b),
{
}

} // verus!
