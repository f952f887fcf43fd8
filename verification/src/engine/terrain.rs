//! The terrain of an arena.

use vstd::prelude::*;

verus! {

/// What a single arena cell is made of.
#[derive(Clone, Copy, Debug, PartialEq, Eq, Structural)]
pub enum TerrainType {
    /// Outside the playable arena.
    Empty,
    /// Passable ground.
    Floor,
    /// Impassable.
    Wall,
}

/// One cell of the arena grid.
#[derive(Clone, Copy, Debug, PartialEq, Eq, Structural)]
pub struct TerrainInfo {
    pub terrain_type: TerrainType,
}

} // verus!
