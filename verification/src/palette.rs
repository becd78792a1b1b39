//! Display colours of terrain.
use vstd::prelude::*;
use crate::map::Terrain;

verus! {

/// The red, green and blue components of a terrain's display colour.
pub open spec fn terrain_rgb(t: Terrain) -> (u8, u8, u8) {
    match t {
        Terrain::Grass => (67, 160, 71),
        Terrain::Water => (25, 118, 210),
        Terrain::Forest => (46, 83, 57),
        Terrain::Mountain => (141, 103, 72),
    }
}

/// The display colour of a terrain, as red, green and blue components.
pub fn terrain_color(terrain: &Terrain) -> (rgb: (u8, u8, u8))
    ensures
        rgb == terrain_rgb(*terrain),
{
    match terrain {
        Terrain::Grass => (67, 160, 71),
        Terrain::Water => (25, 118, 210),
        Terrain::Forest => (46, 83, 57),
        Terrain::Mountain => (141, 103, 72),
    }
}

/// Distinct terrains are drawn in distinct colours.
pub proof fn lemma_terrain_colors_distinct(a: Terrain, b: Terrain)
    requires
        terrain_rgb(a) == terrain_rgb(b),
    ensures
        a == b,
{
}

} // verus!
