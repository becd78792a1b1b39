use vstd::prelude::*;

verus! {

/// The kinds of terrain that the terrain generator produces.
#[derive(Debug, Clone, Copy, PartialEq, Eq, Hash, Structural)]
pub enum TerrainType {
    Water,
    Dirt,
    Grass,
    Forest,
    Mountain,
    Beach,
}

} // verus!
