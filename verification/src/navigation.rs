//! Terrain conversions used by path planning.
use vstd::prelude::*;
use crate::map::{Terrain, WorldMap, terrain_of_type, terrain_char, terrain_passable};
use crate::terrain::TerrainType;

verus! {

/// The terrain type that a map terrain is treated as when movement rules
/// are looked up.
pub open spec fn type_of_terrain(terrain: Terrain) -> TerrainType {
    match terrain {
        Terrain::Grass => TerrainType::Grass,
        Terrain::Forest => TerrainType::Forest,
        Terrain::Water => TerrainType::Water,
        Terrain::Mountain => TerrainType::Mountain,
    }
}

/// Converts a map terrain to the matching terrain type.
pub fn terrain_to_terrain_type(terrain: Terrain) -> (tt: TerrainType)
    ensures
        tt == type_of_terrain(terrain),
{
    match terrain {
        Terrain::Grass => TerrainType::Grass,
        Terrain::Forest => TerrainType::Forest,
        Terrain::Water => TerrainType::Water,
        Terrain::Mountain => TerrainType::Mountain,
    }
}

/// Converting a terrain to its terrain type and back gives the terrain
/// again.
pub proof fn lemma_terrain_type_round_trip(terrain: Terrain)
    ensures
        terrain_of_type(type_of_terrain(terrain)) == terrain,
{
}

/// Distinct terrains are drawn with distinct characters, so an ASCII
/// rendering of the map determines its terrain.
pub proof fn lemma_terrain_char_injective(a: Terrain, b: Terrain)
    requires
        terrain_char(a) == terrain_char(b),
    ensures
        a == b,
{
}

/// Whether a random movement target may lie on a terrain: mountains only
/// for scouts, otherwise the terrains that have a movement cost (grass and
/// forest).
pub open spec fn target_terrain_ok(t: Terrain, is_scout: bool) -> bool {
    match t {
        Terrain::Mountain => is_scout,
        Terrain::Grass | Terrain::Forest => true,
        Terrain::Water => false,
    }
}

/// A random movement target may lie on every terrain that agents walk on
/// (grass and forest, the terrains with a movement cost), whatever the agent
/// type; on mountains only for scouts, and never on water.
pub proof fn lemma_targets_follow_movement(t: Terrain, is_scout: bool)
    ensures
        terrain_passable(t, false) ==> target_terrain_ok(t, is_scout),
        target_terrain_ok(t, is_scout) <==> terrain_passable(t, false) || (t == Terrain::Mountain
            && is_scout),
        target_terrain_ok(Terrain::Grass, is_scout),
        target_terrain_ok(Terrain::Forest, is_scout),
        !target_terrain_ok(Terrain::Water, is_scout),
{
}

/// Whether a random movement target may lie on this terrain.
pub fn target_passable(t: Terrain, is_scout: bool) -> (b: bool)
    ensures
        b == target_terrain_ok(t, is_scout),
{
    match t {
        Terrain::Mountain => is_scout,
        Terrain::Grass | Terrain::Forest => true,
        Terrain::Water => false,
    }
}

/// The most random cells that are tried when picking a movement target.
pub const MAX_TARGET_DRAWS: u32 = 1001;

/// What to do with a randomly drawn movement target cell.
#[derive(Debug, Clone, Copy, PartialEq, Eq, Structural)]
pub enum TargetDraw {
    /// The cell is allowed: use it.
    Accept,
    /// The cell is not allowed: draw another.
    Retry,
    /// The cell is not allowed and no draws are left: use it anyway.
    GiveUp,
}

/// Judges the drawn cell `(x, y)` when `tries` cells were already rejected:
/// accept an allowed cell (see `target_terrain_ok`); otherwise draw again,
/// unless this was draw number `MAX_TARGET_DRAWS`.
pub fn judge_target_draw(map: &WorldMap, x: i32, y: i32, tries: u32, is_scout: bool) -> (d: TargetDraw)
    requires
        map.wf(),
        map.in_bounds(x as int, y as int),
    ensures
        d == if target_terrain_ok(map.tile(x as int, y as int), is_scout) {
            TargetDraw::Accept
        } else if tries + 1 >= MAX_TARGET_DRAWS {
            TargetDraw::GiveUp
        } else {
            TargetDraw::Retry
        },
{
    if target_passable(map.tiles[y as usize][x as usize], is_scout) {
        TargetDraw::Accept
    } else if tries >= MAX_TARGET_DRAWS - 1 {
        TargetDraw::GiveUp
    } else {
        TargetDraw::Retry
    }
}

} // verus!
