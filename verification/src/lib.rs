//! WGVB — deterministic, effectively unbounded procedural hex-world generator.
//!
//! ```text
//! Tile = F(seed, coordinate, algorithm version, configuration)
//! ```
//!
//! with no dependency on generation order, cache contents, explored area, or
//! persisted mutable state. This crate holds the exact, integer half of that
//! function: domain-separated hashing, canonical wrapped coordinates, region
//! addressing, and the classification vocabulary with its rules.
use vstd::prelude::*;

pub mod config;
pub mod coord;
pub mod generator;
pub mod hash;
pub mod terrain;
pub mod tile;
pub mod topology;

pub use config::{
    contrast_passes, octave_count, positive_size, OctaveCount, ZeroSize, MAX_CONTRAST_PASSES,
    MAX_FBM_OCTAVES,
};
pub use coord::{direction_index, Coord, DIRECTIONS, DIRECTION_COUNT};
pub use generator::{provisional_terrain, region_coords};
pub use hash::{
    domain, hash2, hash3, hash_n, DOM_BASIN, DOM_CONTINENTALNESS, DOM_MOISTURE,
    DOM_REGIONAL_ELEVATION, DOM_REGION_STYLE, DOM_RELIEF, DOM_RIDGE_ORIENTATION,
    DOM_TEMPERATURE, DOM_TERRAIN_DETAIL, DOM_VOLCANIC,
};
pub use terrain::{classify, cover, TerrainFacts};
pub use tile::{Climate, Elevation, HeatBand, MoistureBand, Terrain};

verus! {

/// Generator algorithm version. Changing any hash domain, threshold, default,
/// or classification rule changes existing worlds and requires bumping it.
pub const ALGORITHM_VERSION: u32 = 1;

/// The world seed.
pub type Seed = u64;

/// Axial coordinate component type. The world radius is derived from it.
pub type Component = i16;

/// Radius of the canonical wrapped hexagonal map, in tiles: `Component::MAX`.
///
/// The canonical domain is `-N <= q, r, s <= +N` with `q + r + s == 0`,
/// containing `1 + 3 * N * (N + 1)` tiles.
pub const WORLD_RADIUS: i64 = 32767;

/// Default chunk edge, in hexes. Chunks serve callers and caches; they do not
/// define geography.
pub const DEFAULT_CHUNK_SIZE_HEXES: u32 = 32;

/// Default region anchor spacing, in hexes.
pub const DEFAULT_REGION_SIZE_HEXES: u32 = 128;

/// Default macro-region anchor spacing, in hexes.
pub const DEFAULT_MACRO_REGION_SIZE_HEXES: u32 = 512;

} // verus!
