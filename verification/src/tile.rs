//! Generated tile classifications.
//!
//! Every variant's position is pinned: these values are persisted, so
//! reordering variants would silently change stored data. The derived order is
//! variant order, and variant order is each ladder.
use vstd::prelude::*;

verus! {

/// Elevation band, lowest first. Water is the two lowest bands.
#[derive(Debug, Clone, Copy, PartialEq, Eq, Structural, PartialOrd, Ord, Hash)]
pub enum Elevation {
    DeepWater,
    ShallowWater,
    Lowland,
    Upland,
    Highland,
    Mountain,
}

/// The position of an elevation band on its ladder, `0..6`.
pub open spec fn elevation_rank(e: Elevation) -> int {
    match e {
        Elevation::DeepWater => 0,
        Elevation::ShallowWater => 1,
        Elevation::Lowland => 2,
        Elevation::Upland => 3,
        Elevation::Highland => 4,
        Elevation::Mountain => 5,
    }
}

/// Whether an elevation band is ocean water.
pub open spec fn elevation_is_water(e: Elevation) -> bool {
    e is DeepWater || e is ShallowWater
}

impl Elevation {
    /// Whether this band is ocean water.
    ///
    /// Inland water is not this: a lake would sit on potential land, and this
    /// version does not produce one.
    pub fn is_water(self) -> (water: bool)
        ensures
            water == elevation_is_water(self),
    {
        matches!(self, Elevation::DeepWater | Elevation::ShallowWater)
    }

    /// Whether this band is potential land.
    pub fn is_land(self) -> (land: bool)
        ensures
            land == !elevation_is_water(self),
    {
        !self.is_water()
    }
}

/// The water bands are exactly the two lowest rungs of the ladder, and every
/// band is water or land and not both.
pub proof fn law_water_is_the_two_lowest_bands(e: Elevation)
    ensures
        elevation_is_water(e) <==> elevation_rank(e) <= 1,
        0 <= elevation_rank(e) < 6,
{
}

/// Temperature band, coldest first. Independent of [`MoistureBand`] on
/// purpose: cold and arid are not mutually exclusive.
#[derive(Debug, Clone, Copy, PartialEq, Eq, Structural, PartialOrd, Ord, Hash)]
pub enum HeatBand {
    Polar,
    Cold,
    Temperate,
    Warm,
    Hot,
}

/// The position of a heat band on its ladder, `0..5`.
pub open spec fn heat_rank(h: HeatBand) -> int {
    match h {
        HeatBand::Polar => 0,
        HeatBand::Cold => 1,
        HeatBand::Temperate => 2,
        HeatBand::Warm => 3,
        HeatBand::Hot => 4,
    }
}

impl HeatBand {
    /// Every band, coldest first — which is also variant order.
    pub const ALL: [HeatBand; 5] = [
        HeatBand::Polar,
        HeatBand::Cold,
        HeatBand::Temperate,
        HeatBand::Warm,
        HeatBand::Hot,
    ];

    /// The band's name, lowercase, for a legend or a command line.
    pub fn name(self) -> (name: &'static str)
        ensures
            name@ == heat_band_name(self),
    {
        match self {
            HeatBand::Polar => "polar",
            HeatBand::Cold => "cold",
            HeatBand::Temperate => "temperate",
            HeatBand::Warm => "warm",
            HeatBand::Hot => "hot",
        }
    }
}

/// The name of a heat band.
pub open spec fn heat_band_name(h: HeatBand) -> Seq<char> {
    match h {
        HeatBand::Polar => "polar"@,
        HeatBand::Cold => "cold"@,
        HeatBand::Temperate => "temperate"@,
        HeatBand::Warm => "warm"@,
        HeatBand::Hot => "hot"@,
    }
}

/// Moisture band, driest first.
#[derive(Debug, Clone, Copy, PartialEq, Eq, Structural, PartialOrd, Ord, Hash)]
pub enum MoistureBand {
    Arid,
    Dry,
    Moderate,
    Humid,
    Saturated,
}

/// The position of a moisture band on its ladder, `0..5`.
pub open spec fn moisture_rank(m: MoistureBand) -> int {
    match m {
        MoistureBand::Arid => 0,
        MoistureBand::Dry => 1,
        MoistureBand::Moderate => 2,
        MoistureBand::Humid => 3,
        MoistureBand::Saturated => 4,
    }
}

impl MoistureBand {
    /// Every band, driest first — which is also variant order.
    pub const ALL: [MoistureBand; 5] = [
        MoistureBand::Arid,
        MoistureBand::Dry,
        MoistureBand::Moderate,
        MoistureBand::Humid,
        MoistureBand::Saturated,
    ];

    /// The band's name, lowercase, for a legend or a command line.
    pub fn name(self) -> (name: &'static str)
        ensures
            name@ == moisture_band_name(self),
    {
        match self {
            MoistureBand::Arid => "arid",
            MoistureBand::Dry => "dry",
            MoistureBand::Moderate => "moderate",
            MoistureBand::Humid => "humid",
            MoistureBand::Saturated => "saturated",
        }
    }
}

/// The name of a moisture band.
pub open spec fn moisture_band_name(m: MoistureBand) -> Seq<char> {
    match m {
        MoistureBand::Arid => "arid"@,
        MoistureBand::Dry => "dry"@,
        MoistureBand::Moderate => "moderate"@,
        MoistureBand::Humid => "humid"@,
        MoistureBand::Saturated => "saturated"@,
    }
}

/// Climate as two independent axes.
#[derive(Debug, Clone, Copy, PartialEq, Eq, Structural, Hash)]
pub struct Climate {
    pub heat: HeatBand,
    pub moisture: MoistureBand,
}

/// Game-facing terrain classification, grouped by family.
///
/// [`Terrain::Lake`] and [`Terrain::InlandSea`] are in the vocabulary and no
/// world produced by this version contains either; they keep their positions so
/// a version that emits them does not renumber the variants after them.
#[derive(Debug, Clone, Copy, PartialEq, Eq, Structural, Hash)]
pub enum Terrain {
    // Ocean.
    DeepOcean,
    Ocean,
    ShallowSea,
    CoastalWater,
    // Inland water.
    InlandSea,
    Lake,
    // Frozen.
    GlacialIce,
    Tundra,
    // Wetland.
    Marsh,
    Swamp,
    Bog,
    // Dry.
    Desert,
    Badlands,
    Scrubland,
    // Open land.
    Plains,
    Grassland,
    Steppe,
    Savanna,
    // Forest.
    BorealForest,
    TemperateForest,
    Rainforest,
    // Elevated.
    Hills,
    Mountain,
    Alpine,
    // Volcanic.
    Volcano,
    VolcanicHighland,
    // Coastal land.
    Coast,
}

/// Whether a terrain is open water of any kind, ocean or inland.
pub open spec fn terrain_is_water(t: Terrain) -> bool {
    t is DeepOcean || t is Ocean || t is ShallowSea || t is CoastalWater || t is InlandSea
        || t is Lake
}

/// Whether a terrain is inland water.
pub open spec fn terrain_is_inland_water(t: Terrain) -> bool {
    t is InlandSea || t is Lake
}

/// The name of a terrain.
pub open spec fn terrain_name(t: Terrain) -> Seq<char> {
    match t {
        Terrain::DeepOcean => "deep ocean"@,
        Terrain::Ocean => "ocean"@,
        Terrain::ShallowSea => "shallow sea"@,
        Terrain::CoastalWater => "coastal water"@,
        Terrain::InlandSea => "inland sea"@,
        Terrain::Lake => "lake"@,
        Terrain::GlacialIce => "glacial ice"@,
        Terrain::Tundra => "tundra"@,
        Terrain::Marsh => "marsh"@,
        Terrain::Swamp => "swamp"@,
        Terrain::Bog => "bog"@,
        Terrain::Desert => "desert"@,
        Terrain::Badlands => "badlands"@,
        Terrain::Scrubland => "scrubland"@,
        Terrain::Plains => "plains"@,
        Terrain::Grassland => "grassland"@,
        Terrain::Steppe => "steppe"@,
        Terrain::Savanna => "savanna"@,
        Terrain::BorealForest => "boreal forest"@,
        Terrain::TemperateForest => "temperate forest"@,
        Terrain::Rainforest => "rainforest"@,
        Terrain::Hills => "hills"@,
        Terrain::Mountain => "mountain"@,
        Terrain::Alpine => "alpine"@,
        Terrain::Volcano => "volcano"@,
        Terrain::VolcanicHighland => "volcanic highland"@,
        Terrain::Coast => "coast"@,
    }
}

impl Terrain {
    /// Every terrain, in variant order — which is the family order.
    pub const ALL: [Terrain; 27] = [
        Terrain::DeepOcean,
        Terrain::Ocean,
        Terrain::ShallowSea,
        Terrain::CoastalWater,
        Terrain::InlandSea,
        Terrain::Lake,
        Terrain::GlacialIce,
        Terrain::Tundra,
        Terrain::Marsh,
        Terrain::Swamp,
        Terrain::Bog,
        Terrain::Desert,
        Terrain::Badlands,
        Terrain::Scrubland,
        Terrain::Plains,
        Terrain::Grassland,
        Terrain::Steppe,
        Terrain::Savanna,
        Terrain::BorealForest,
        Terrain::TemperateForest,
        Terrain::Rainforest,
        Terrain::Hills,
        Terrain::Mountain,
        Terrain::Alpine,
        Terrain::Volcano,
        Terrain::VolcanicHighland,
        Terrain::Coast,
    ];

    /// The terrain's name, lowercase, for a legend or a command line.
    pub fn name(self) -> (name: &'static str)
        ensures
            name@ == terrain_name(self),
    {
        match self {
            Terrain::DeepOcean => "deep ocean",
            Terrain::Ocean => "ocean",
            Terrain::ShallowSea => "shallow sea",
            Terrain::CoastalWater => "coastal water",
            Terrain::InlandSea => "inland sea",
            Terrain::Lake => "lake",
            Terrain::GlacialIce => "glacial ice",
            Terrain::Tundra => "tundra",
            Terrain::Marsh => "marsh",
            Terrain::Swamp => "swamp",
            Terrain::Bog => "bog",
            Terrain::Desert => "desert",
            Terrain::Badlands => "badlands",
            Terrain::Scrubland => "scrubland",
            Terrain::Plains => "plains",
            Terrain::Grassland => "grassland",
            Terrain::Steppe => "steppe",
            Terrain::Savanna => "savanna",
            Terrain::BorealForest => "boreal forest",
            Terrain::TemperateForest => "temperate forest",
            Terrain::Rainforest => "rainforest",
            Terrain::Hills => "hills",
            Terrain::Mountain => "mountain",
            Terrain::Alpine => "alpine",
            Terrain::Volcano => "volcano",
            Terrain::VolcanicHighland => "volcanic highland",
            Terrain::Coast => "coast",
        }
    }

    /// Whether this terrain is open water of any kind, ocean or inland.
    pub fn is_water(self) -> (water: bool)
        ensures
            water == terrain_is_water(self),
    {
        matches!(
            self,
            Terrain::DeepOcean | Terrain::Ocean | Terrain::ShallowSea | Terrain::CoastalWater
                | Terrain::InlandSea | Terrain::Lake
        )
    }

    /// Whether this terrain is inland water. Never true of a tile this version
    /// generates.
    pub fn is_inland_water(self) -> (inland: bool)
        ensures
            inland == terrain_is_inland_water(self),
    {
        matches!(self, Terrain::InlandSea | Terrain::Lake)
    }
}

/// Inland water is water.
pub proof fn law_inland_water_is_water(t: Terrain)
    ensures
        terrain_is_inland_water(t) ==> terrain_is_water(t),
{
}

} // verus!
