//! The map of the world and the local maps of its locations.

use std::collections::HashMap;
use vstd::prelude::*;
use crate::world::world_elements::{Biome, TileType, WorldObject};

verus! {

/// The ground of one location, tile by tile.
pub struct LocalMap {
    pub tiles: Vec<Vec<Tile>>,
    pub width: u32,
    pub height: u32,
}

/// A named place on the world map.
#[derive(Debug, Clone, PartialEq, Eq, Hash)]
pub struct Location {
    pub name: String,
    pub description: String,
    pub x: u32,
    pub y: u32,
}

pub struct Tile {
    pub tyle_type: TileType,
    pub objects: Vec<WorldObject>,
}

/// The world map: its biomes, and the local map of each of its locations.
pub struct WorldMap {
    pub biomes: Vec<Vec<Biome>>,
    pub locations: HashMap<Location, LocalMap>,
    pub width: u32,
    pub height: u32,
}

impl WorldMap {
    /// A map of the given size on which nothing is charted yet.
    pub fn new(width: u32, height: u32) -> (map: WorldMap)
        ensures
            map.biomes@ == Seq::<Vec<Biome>>::empty(),
            map.locations@ == Map::<Location, LocalMap>::empty(),
            map.width == width,
            map.height == height,
    {
        WorldMap { biomes: Vec::new(), locations: HashMap::new(), width, height }
    }
}

} // verus!
