//! What the world is made of.

use vstd::prelude::*;
use crate::objects::object::Object;

verus! {

#[derive(Debug, Clone, Copy, PartialEq, Eq, Structural)]
pub enum Biome {
    Mountain,
    Plains,
    Forest,
    HotDesert,
    ColdDesert,
    Tundra,
    Jungle,
    Ocean,
    Swamp,
    Savanna,
    Taiga,
    Glacier,
    Island,
    LavaOcean,
    Sky,
}

#[derive(Debug, Clone, Copy, PartialEq, Eq, Structural)]
pub enum World {
    Earth,
    Mars,
    Venus,
    Mercury,
    Moon,
    Europa,
    Titan,
    Hell,
    Heaven,
    Purgatory,
}

#[derive(Debug, Clone, Copy, PartialEq, Eq, Structural)]
pub enum TileType {
    Grass,
    Dirt,
    Sand,
    Ice,
    Snow,
    Stone,
    Floor,
    Leaves,
}

/// What can be found in the world without anyone having put it there.
#[derive(Debug, Clone, Copy, PartialEq, Eq, Structural)]
pub enum WorldObjectType {
    Tree,
    Rock,
    Bush,
    Flower,
}

#[derive(Debug, Clone, Copy, PartialEq, Eq, Structural)]
pub enum BuildingType {
    House,
    Castle,
    Tower,
    Wall,
}

pub struct WorldObject {
    pub object: Object,
    pub object_type: WorldObjectType,
}

} // verus!
