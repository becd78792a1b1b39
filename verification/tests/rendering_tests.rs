use community_sim::map::{Terrain, WorldMap};
use community_sim::navigation::terrain_to_terrain_type;
use community_sim::palette::terrain_color;
use community_sim::render_ascii::render_simulation_ascii;
use community_sim::terrain::TerrainType;

fn small_map() -> WorldMap {
    WorldMap {
        width: 3,
        height: 2,
        tiles: vec![
            vec![Terrain::Grass, Terrain::Water, Terrain::Forest],
            vec![Terrain::Mountain, Terrain::Grass, Terrain::Grass],
        ],
    }
}

#[test]
fn snapshot_without_entities_is_terrain() {
    let map = small_map();
    assert_eq!(render_simulation_ascii(&map, &vec![], &vec![]), map.render_ascii());
}

#[test]
fn snapshot_draws_food_and_agents() {
    let map = small_map();
    let food = vec![(0, 0), (2, 1)];
    let agents = vec![(1, 1)];
    assert_eq!(render_simulation_ascii(&map, &food, &agents), "F~T\n^AF\n");
}

#[test]
fn snapshot_agents_hide_food() {
    let map = small_map();
    let food = vec![(1, 0)];
    let agents = vec![(1, 0)];
    assert_eq!(render_simulation_ascii(&map, &food, &agents), ".AT\n^..\n");
}

#[test]
fn snapshot_ignores_cells_outside_the_map() {
    let map = small_map();
    let food = vec![(-1, 0), (3, 0), (0, 2)];
    let agents = vec![(0, -1), (5, 5)];
    assert_eq!(render_simulation_ascii(&map, &food, &agents), ".~T\n^..\n");
}

#[test]
fn terrain_type_round_trip() {
    for t in [Terrain::Grass, Terrain::Forest, Terrain::Water, Terrain::Mountain] {
        assert_eq!(Terrain::from(terrain_to_terrain_type(t)), t);
    }
    assert_eq!(terrain_to_terrain_type(Terrain::Water), TerrainType::Water);
    assert_eq!(terrain_to_terrain_type(Terrain::Mountain), TerrainType::Mountain);
}

#[test]
fn terrain_colors() {
    assert_eq!(terrain_color(&Terrain::Grass), (67, 160, 71));
    assert_eq!(terrain_color(&Terrain::Water), (25, 118, 210));
    assert_eq!(terrain_color(&Terrain::Forest), (46, 83, 57));
    assert_eq!(terrain_color(&Terrain::Mountain), (141, 103, 72));
}

#[test]
fn terrain_colors_and_chars_distinct() {
    let all = [Terrain::Grass, Terrain::Forest, Terrain::Water, Terrain::Mountain];
    for a in all {
        for b in all {
            if a != b {
                assert_ne!(terrain_color(&a), terrain_color(&b));
                assert_ne!(a.to_char(), b.to_char());
            }
        }
    }
}
