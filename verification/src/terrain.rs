//! Terrain classification.
//!
//! Terrain is a *classification*, never a draw: nothing here hashes anything.
//! Every input is a band read off a continuous field or the outcome of
//! comparing a field against a configured threshold, so two neighboring tiles
//! disagree only where a field crossed a threshold between them.
//!
//! # Rule order
//!
//! ```text
//! ocean and inland water
//!     -> glacial ice
//!     -> volcano
//!     -> mountain and alpine terrain
//!     -> wetland
//!     -> coastal land
//!     -> badlands and hills
//!     -> climate-driven land cover
//! ```
//!
//! so that exceptional terrain is not hidden by a broad biome rule.
//!
//! # Inland water is omitted
//!
//! No input is ever classified [`Terrain::Lake`] or [`Terrain::InlandSea`]. A
//! lake has one surface elevation shared by every tile of it, and knowing which
//! tiles those are is connectivity, which bounded local generation cannot
//! provide. The two variants stay in the vocabulary with their positions
//! pinned; [`law_no_terrain_is_inland_water`] holds the decision.
use vstd::prelude::*;

use crate::tile::{
    elevation_is_water, elevation_rank, heat_rank, moisture_rank, terrain_is_inland_water,
    terrain_is_water, Elevation, HeatBand, MoistureBand, Terrain,
};

verus! {

/// Everything one tile's terrain is classified from: its bands, whether its
/// neighbors include water and land, and the outcome of each threshold
/// comparison the rules read.
#[derive(Debug, Clone, Copy, PartialEq, Eq, Structural)]
pub struct TerrainFacts {
    /// The elevation band.
    pub band: Elevation,
    /// The heat band of the tile's climate.
    pub heat: HeatBand,
    /// The moisture band of the tile's wetness: moisture as a basin amplifies
    /// it, banded through the climate's moisture ladder.
    pub wet: MoistureBand,
    /// Whether any of the six neighbors is ocean water.
    pub adjacent_water: bool,
    /// Whether any of the six neighbors is land.
    pub adjacent_land: bool,
    /// Elevation at or below the deep-water level.
    pub deep: bool,
    /// Elevation at or below the ocean level.
    pub ocean_deep: bool,
    /// Heat at or below the glacial-ice level.
    pub frozen: bool,
    /// Volcanic tendency at or above the volcano level.
    pub restless: bool,
    /// Peak prominence at or above the volcano prominence level.
    pub prominent: bool,
    /// Volcanic tendency at or above the volcanic-highland level.
    pub volcanic_ground: bool,
    /// Heat at or below the alpine level: above the tree line.
    pub above_tree_line: bool,
    /// Relief at or above the mountain relief level.
    pub steep: bool,
    /// Relief at or below the wetland relief level.
    pub flat: bool,
    /// Wetness at or above the wetland level.
    pub waterlogged: bool,
    /// Elevation at or below the coast level.
    pub near_sea_level: bool,
    /// Relief at or above the badlands relief level.
    pub cut_up: bool,
    /// Relief at or above the hill relief level.
    pub hilly: bool,
}

/// Climate-driven land cover: the broad biome rule, last in the order. The
/// two axes are read together and stay independent.
pub open spec fn cover_spec(heat: HeatBand, moisture: MoistureBand) -> Terrain {
    match heat {
        HeatBand::Polar => Terrain::Tundra,
        HeatBand::Cold => match moisture {
            MoistureBand::Arid => Terrain::Tundra,
            MoistureBand::Dry => Terrain::Steppe,
            _ => Terrain::BorealForest,
        },
        HeatBand::Temperate => match moisture {
            MoistureBand::Arid => Terrain::Scrubland,
            MoistureBand::Dry => Terrain::Grassland,
            MoistureBand::Moderate => Terrain::Plains,
            _ => Terrain::TemperateForest,
        },
        HeatBand::Warm => match moisture {
            MoistureBand::Arid => Terrain::Desert,
            MoistureBand::Dry => Terrain::Scrubland,
            MoistureBand::Moderate => Terrain::Savanna,
            _ => Terrain::TemperateForest,
        },
        HeatBand::Hot => match moisture {
            MoistureBand::Arid => Terrain::Desert,
            MoistureBand::Dry => Terrain::Scrubland,
            MoistureBand::Moderate => Terrain::Savanna,
            _ => Terrain::Rainforest,
        },
    }
}

/// The wetland a cold, temperate, or warm climate makes of saturated flat
/// lowland.
pub open spec fn wetland_spec(heat: HeatBand) -> Terrain {
    if heat_rank(heat) <= 1 {
        Terrain::Bog
    } else if heat is Temperate {
        Terrain::Marsh
    } else {
        Terrain::Swamp
    }
}

/// The terrain of a tile with the given facts: the rule order, top to bottom.
pub open spec fn classify_spec(f: TerrainFacts) -> Terrain {
    if elevation_is_water(f.band) {
        // Ocean: adjacency to land, then depth.
        if f.adjacent_land {
            Terrain::CoastalWater
        } else if f.deep {
            Terrain::DeepOcean
        } else if f.ocean_deep {
            Terrain::Ocean
        } else {
            Terrain::ShallowSea
        }
    } else if f.frozen && moisture_rank(f.wet) > 0 {
        Terrain::GlacialIce
    } else if f.restless && f.prominent && elevation_rank(f.band) >= 3 {
        Terrain::Volcano
    } else if f.volcanic_ground && elevation_rank(f.band) >= 3 {
        Terrain::VolcanicHighland
    } else if f.band is Mountain {
        if f.above_tree_line {
            Terrain::Alpine
        } else {
            Terrain::Mountain
        }
    } else if f.band is Highland {
        if f.steep {
            Terrain::Mountain
        } else {
            Terrain::Hills
        }
    } else if f.band is Lowland && f.flat && f.waterlogged {
        wetland_spec(f.heat)
    } else if f.band is Lowland && f.near_sea_level && f.adjacent_water {
        Terrain::Coast
    } else if moisture_rank(f.wet) <= 1 && f.cut_up {
        Terrain::Badlands
    } else if f.band is Upland && f.hilly {
        Terrain::Hills
    } else {
        cover_spec(f.heat, f.wet)
    }
}

/// Climate-driven land cover. A `match` over the two band enums rather than a
/// lookup table, so the classification is total by construction.
pub fn cover(heat: HeatBand, moisture: MoistureBand) -> (terrain: Terrain)
    ensures
        terrain == cover_spec(heat, moisture),
{
    match (heat, moisture) {
        // Polar. Nothing grows tall enough to be a forest.
        (HeatBand::Polar, _) => Terrain::Tundra,
        // Cold. Tundra at the dry end, then steppe, then the boreal forest.
        (HeatBand::Cold, MoistureBand::Arid) => Terrain::Tundra,
        (HeatBand::Cold, MoistureBand::Dry) => Terrain::Steppe,
        (HeatBand::Cold, _) => Terrain::BorealForest,
        // Temperate. Scrub, grass, plains, then temperate forest.
        (HeatBand::Temperate, MoistureBand::Arid) => Terrain::Scrubland,
        (HeatBand::Temperate, MoistureBand::Dry) => Terrain::Grassland,
        (HeatBand::Temperate, MoistureBand::Moderate) => Terrain::Plains,
        (HeatBand::Temperate, _) => Terrain::TemperateForest,
        // Warm. Desert at the dry end and savanna in the middle.
        (HeatBand::Warm, MoistureBand::Arid) => Terrain::Desert,
        (HeatBand::Warm, MoistureBand::Dry) => Terrain::Scrubland,
        (HeatBand::Warm, MoistureBand::Moderate) => Terrain::Savanna,
        (HeatBand::Warm, _) => Terrain::TemperateForest,
        // Hot. Desert, scrub, savanna, then the rainforest.
        (HeatBand::Hot, MoistureBand::Arid) => Terrain::Desert,
        (HeatBand::Hot, MoistureBand::Dry) => Terrain::Scrubland,
        (HeatBand::Hot, MoistureBand::Moderate) => Terrain::Savanna,
        (HeatBand::Hot, _) => Terrain::Rainforest,
    }
}

/// The terrain at one tile, by the rule order of the module documentation.
pub fn classify(facts: &TerrainFacts) -> (terrain: Terrain)
    ensures
        terrain == classify_spec(*facts),
{
    let elevated = matches!(facts.band, Elevation::Upland | Elevation::Highland | Elevation::Mountain);

    // 1. Ocean. Depth and adjacency to land decide which water it is.
    if facts.band.is_water() {
        if facts.adjacent_land {
            return Terrain::CoastalWater;
        }
        if facts.deep {
            return Terrain::DeepOcean;
        }
        if facts.ocean_deep {
            return Terrain::Ocean;
        }
        return Terrain::ShallowSea;
    }

    // 2. Inland water. Deliberately omitted: there is no branch here, and
    //    that absence is the decision.

    // 3. Glacial ice, where there is something to freeze.
    if facts.frozen && !matches!(facts.wet, MoistureBand::Arid) {
        return Terrain::GlacialIce;
    }

    // 4. Volcanic: restless crust, uplift, and a tile that stands above its
    //    neighbors.
    if facts.restless && facts.prominent && elevated {
        return Terrain::Volcano;
    }
    if facts.volcanic_ground && elevated {
        return Terrain::VolcanicHighland;
    }

    // 5. Mountain and alpine. The tree line is a temperature.
    match facts.band {
        Elevation::Mountain => {
            return if facts.above_tree_line {
                Terrain::Alpine
            } else {
                Terrain::Mountain
            };
        },
        Elevation::Highland => {
            return if facts.steep {
                Terrain::Mountain
            } else {
                Terrain::Hills
            };
        },
        _ => {},
    }

    // 6. Wetland: saturated ground, flat enough to hold water and low enough
    //    for water to have arrived, named for its climate.
    if matches!(facts.band, Elevation::Lowland) && facts.flat && facts.waterlogged {
        return match facts.heat {
            HeatBand::Polar | HeatBand::Cold => Terrain::Bog,
            HeatBand::Temperate => Terrain::Marsh,
            HeatBand::Warm | HeatBand::Hot => Terrain::Swamp,
        };
    }

    // 7. Coastal land: near sea level and next to ocean water.
    if matches!(facts.band, Elevation::Lowland) && facts.near_sea_level && facts.adjacent_water {
        return Terrain::Coast;
    }

    // 8. Badlands: dry ground that has been cut up.
    if matches!(facts.wet, MoistureBand::Arid | MoistureBand::Dry) && facts.cut_up {
        return Terrain::Badlands;
    }

    // 9. Hills: upland ground with enough relief.
    if matches!(facts.band, Elevation::Upland) && facts.hilly {
        return Terrain::Hills;
    }

    // 10. Climate-driven land cover, and nothing else is left.
    cover(facts.heat, facts.wet)
}

/// No input whatsoever is classified as inland water.
pub proof fn law_no_terrain_is_inland_water(f: TerrainFacts)
    ensures
        !terrain_is_inland_water(classify_spec(f)),
{
}

/// Terrain and elevation band agree on the partition between water and land.
pub proof fn law_terrain_water_is_band_water(f: TerrainFacts)
    ensures
        terrain_is_water(classify_spec(f)) == elevation_is_water(f.band),
{
}

/// Shorelines are where the water meets the land: coastal water touches land,
/// a coast touches water, and a water tile touching land is always coastal
/// water.
pub proof fn law_shorelines_sit_at_the_water_edge(f: TerrainFacts)
    ensures
        classify_spec(f) == Terrain::CoastalWater ==> f.adjacent_land && elevation_is_water(
            f.band,
        ),
        classify_spec(f) == Terrain::Coast ==> f.adjacent_water && f.band == Elevation::Lowland,
        elevation_is_water(f.band) && f.adjacent_land ==> classify_spec(f)
            == Terrain::CoastalWater,
{
}

/// Elevated terrain sits on elevated ground, and wetlands and coasts are
/// lowland.
pub proof fn law_terrain_matches_its_band(f: TerrainFacts)
    ensures
        ({
            let t = classify_spec(f);
            &&& (t == Terrain::Mountain || t == Terrain::Alpine || t == Terrain::Hills || t
                == Terrain::Volcano || t == Terrain::VolcanicHighland) ==> elevation_rank(f.band)
                >= 3
            &&& (t == Terrain::Marsh || t == Terrain::Swamp || t == Terrain::Bog || t
                == Terrain::Coast) ==> f.band == Elevation::Lowland
        }),
{
}

/// Terrain that names a climate does not contradict it.
pub proof fn law_terrain_matches_its_climate(f: TerrainFacts)
    ensures
        ({
            let t = classify_spec(f);
            &&& (t == Terrain::Rainforest || t == Terrain::Desert || t == Terrain::Swamp)
                ==> heat_rank(f.heat) >= 3
            &&& t == Terrain::BorealForest ==> f.heat == HeatBand::Cold
            &&& (t == Terrain::Tundra || t == Terrain::Bog) ==> heat_rank(f.heat) <= 1
        }),
{
}

/// Open water away from land is named by depth alone: deep ocean at or below
/// the deep-water level, ocean at or below the ocean level, and shallow sea
/// above both.
pub proof fn law_open_water_is_named_by_depth(f: TerrainFacts)
    requires
        elevation_is_water(f.band),
        !f.adjacent_land,
    ensures
        f.deep ==> classify_spec(f) == Terrain::DeepOcean,
        !f.deep && f.ocean_deep ==> classify_spec(f) == Terrain::Ocean,
        !f.deep && !f.ocean_deep ==> classify_spec(f) == Terrain::ShallowSea,
{
}

/// Glacial ice is exactly frozen land with some moisture to freeze: a polar
/// desert is never ice.
pub proof fn law_glacial_ice_needs_frost_and_moisture(f: TerrainFacts)
    ensures
        classify_spec(f) == Terrain::GlacialIce <==> (!elevation_is_water(f.band) && f.frozen
            && f.wet != MoistureBand::Arid),
{
}

/// A volcano takes all three conditions together: restless crust, a peak that
/// stands above its neighbors, and uplift. Where land is not ice, the three
/// together always make one.
pub proof fn law_volcano_needs_restless_crust_prominence_and_uplift(f: TerrainFacts)
    ensures
        classify_spec(f) == Terrain::Volcano ==> f.restless && f.prominent && elevation_rank(
            f.band,
        ) >= 3,
        classify_spec(f) == Terrain::Volcano <==> (!elevation_is_water(f.band) && !(f.frozen
            && f.wet != MoistureBand::Arid) && f.restless && f.prominent && elevation_rank(f.band)
            >= 3),
{
}

/// Volcanic highland is volcanic raised ground that is not a volcano.
pub proof fn law_volcanic_highland_is_volcanic_raised_ground(f: TerrainFacts)
    ensures
        classify_spec(f) == Terrain::VolcanicHighland ==> f.volcanic_ground && elevation_rank(
            f.band,
        ) >= 3 && !(f.restless && f.prominent),
{
}

/// Once ice and both volcanic rules are ruled out, the mountain band is alpine exactly
/// above the tree line and mountain below it, and the highland band is
/// mountain exactly where it is steep and hills otherwise.
pub proof fn law_high_bands_read_tree_line_and_steepness(f: TerrainFacts)
    requires
        !(f.frozen && f.wet != MoistureBand::Arid),
        !(f.restless && f.prominent),
        !f.volcanic_ground,
    ensures
        f.band == Elevation::Mountain ==> classify_spec(f) == (if f.above_tree_line {
            Terrain::Alpine
        } else {
            Terrain::Mountain
        }),
        f.band == Elevation::Highland ==> classify_spec(f) == (if f.steep {
            Terrain::Mountain
        } else {
            Terrain::Hills
        }),
{
}

/// Wetland is flat, waterlogged lowland, and which wetland it is follows the
/// climate: a bog where it is polar or cold, a marsh where it is temperate,
/// and a swamp where it is warm or hot.
pub proof fn law_wetland_is_flat_waterlogged_lowland(f: TerrainFacts)
    ensures
        ({
            let t = classify_spec(f);
            (t == Terrain::Bog || t == Terrain::Marsh || t == Terrain::Swamp) ==> f.band
                == Elevation::Lowland && f.flat && f.waterlogged
        }),
        f.band == Elevation::Lowland && f.flat && f.waterlogged && !(f.frozen && f.wet
            != MoistureBand::Arid) ==> classify_spec(f) == (if heat_rank(f.heat) <= 1 {
            Terrain::Bog
        } else if heat_rank(f.heat) == 2 {
            Terrain::Marsh
        } else {
            Terrain::Swamp
        }),
{
}

/// A coast takes both conditions, not one: near sea level and next to ocean
/// water. A cliff rising out of the sea is not a coast, and neither is inland
/// ground at the same height. Lowland meeting both, and neither ice nor
/// wetland, is always coast.
pub proof fn law_coast_is_low_ground_by_the_sea(f: TerrainFacts)
    ensures
        classify_spec(f) == Terrain::Coast ==> f.near_sea_level && f.adjacent_water && f.band
            == Elevation::Lowland,
        f.band == Elevation::Lowland && f.near_sea_level && f.adjacent_water && !(f.frozen
            && f.wet != MoistureBand::Arid) && !(f.flat && f.waterlogged) ==> classify_spec(f)
            == Terrain::Coast,
        f.band == Elevation::Lowland && !f.near_sea_level && !(f.frozen && f.wet
            != MoistureBand::Arid) && !(f.flat && f.waterlogged) && !f.cut_up ==> classify_spec(
            f,
        ) == cover_spec(f.heat, f.wet),
{
}

/// Badlands are dry, cut-up ground below the highland band.
pub proof fn law_badlands_are_dry_cut_up_ground(f: TerrainFacts)
    ensures
        classify_spec(f) == Terrain::Badlands ==> moisture_rank(f.wet) <= 1 && f.cut_up && (
        f.band == Elevation::Lowland || f.band == Elevation::Upland),
{
}

/// Hills are a highland that is not steep, or an upland with hill relief.
pub proof fn law_hills_are_gentle_highland_or_hilly_upland(f: TerrainFacts)
    ensures
        classify_spec(f) == Terrain::Hills ==> (f.band == Elevation::Highland && !f.steep) || (
        f.band == Elevation::Upland && f.hilly),
{
}

/// Land that no earlier rule claims takes its climate's land cover.
pub proof fn law_unclaimed_land_takes_its_climate_cover(f: TerrainFacts)
    requires
        f.band == Elevation::Lowland || f.band == Elevation::Upland,
        !(f.frozen && f.wet != MoistureBand::Arid),
        !(f.restless && f.prominent),
        !f.volcanic_ground,
        !(f.flat && f.waterlogged),
        !f.near_sea_level,
        !f.cut_up,
        !f.hilly,
    ensures
        classify_spec(f) == cover_spec(f.heat, f.wet),
{
}

/// The land-cover table, row by row. Polar ground is tundra whatever its
/// moisture. In every other row the wet end (humid and saturated) is a forest
/// — boreal where cold, rainforest where hot, temperate otherwise — and the
/// dry end runs from desert or tundra through scrub, grass, and steppe.
pub proof fn law_cover_table(h: HeatBand, m: MoistureBand)
    ensures
        h == HeatBand::Polar ==> cover_spec(h, m) == Terrain::Tundra,
        moisture_rank(m) >= 3 && h == HeatBand::Cold ==> cover_spec(h, m)
            == Terrain::BorealForest,
        moisture_rank(m) >= 3 && (h == HeatBand::Temperate || h == HeatBand::Warm) ==> cover_spec(
            h,
            m,
        ) == Terrain::TemperateForest,
        moisture_rank(m) >= 3 && h == HeatBand::Hot ==> cover_spec(h, m) == Terrain::Rainforest,
        m == MoistureBand::Moderate && h == HeatBand::Cold ==> cover_spec(h, m)
            == Terrain::BorealForest,
        m == MoistureBand::Moderate && h == HeatBand::Temperate ==> cover_spec(h, m)
            == Terrain::Plains,
        m == MoistureBand::Moderate && heat_rank(h) >= 3 ==> cover_spec(h, m) == Terrain::Savanna,
        m == MoistureBand::Dry && h == HeatBand::Cold ==> cover_spec(h, m) == Terrain::Steppe,
        m == MoistureBand::Dry && h == HeatBand::Temperate ==> cover_spec(h, m)
            == Terrain::Grassland,
        m == MoistureBand::Dry && heat_rank(h) >= 3 ==> cover_spec(h, m) == Terrain::Scrubland,
        m == MoistureBand::Arid && h == HeatBand::Cold ==> cover_spec(h, m) == Terrain::Tundra,
        m == MoistureBand::Arid && h == HeatBand::Temperate ==> cover_spec(h, m)
            == Terrain::Scrubland,
        m == MoistureBand::Arid && heat_rank(h) >= 3 ==> cover_spec(h, m) == Terrain::Desert,
{
}

/// Land cover never names water, ice, relief, or a wetland: those come only
/// from the rules before it.
pub proof fn law_cover_is_only_vegetation_and_open_ground(h: HeatBand, m: MoistureBand)
    ensures
        ({
            let t = cover_spec(h, m);
            &&& !terrain_is_water(t)
            &&& t != Terrain::GlacialIce && t != Terrain::Hills && t != Terrain::Mountain && t
                != Terrain::Alpine && t != Terrain::Volcano && t != Terrain::VolcanicHighland
            &&& t != Terrain::Marsh && t != Terrain::Swamp && t != Terrain::Bog && t
                != Terrain::Coast && t != Terrain::Badlands
        }),
{
}

} // verus!
