use community_sim::agent::components::AgentState;
use community_sim::map::{Food, Terrain, WorldMap};
use community_sim::terrain::TerrainType;

fn grid(rows: &[&str]) -> WorldMap {
    let tiles: Vec<Vec<Terrain>> = rows
        .iter()
        .map(|r| {
            r.chars()
                .map(|c| match c {
                    '.' => Terrain::Grass,
                    'T' => Terrain::Forest,
                    '~' => Terrain::Water,
                    _ => Terrain::Mountain,
                })
                .collect()
        })
        .collect();
    WorldMap { width: rows[0].len() as i32, height: rows.len() as i32, tiles }
}

#[test]
fn test_water_passable_only_when_swimming() {
    let map = WorldMap {
        width: 3,
        height: 3,
        tiles: vec![
            vec![Terrain::Grass, Terrain::Water, Terrain::Grass],
            vec![Terrain::Grass, Terrain::Water, Terrain::Grass],
            vec![Terrain::Grass, Terrain::Water, Terrain::Grass],
        ],
    };
    // Water tile at (1, 1)
    // Passable for Swimming
    assert_eq!(map.is_passable(1, 1, Some(&AgentState::Swimming)), true);
    // Not passable for Idle
    assert_eq!(map.is_passable(1, 1, Some(&AgentState::Idle)), false);
    // Not passable for Moving
    assert_eq!(map.is_passable(1, 1, Some(&AgentState::Moving)), false);
    // Not passable for Arrived
    assert_eq!(map.is_passable(1, 1, Some(&AgentState::Arrived)), false);
    // Not passable for None
    assert_eq!(map.is_passable(1, 1, None), false);
    // Grass always passable
    assert_eq!(map.is_passable(0, 0, Some(&AgentState::Idle)), true);
    assert_eq!(map.is_passable(0, 0, Some(&AgentState::Swimming)), true);
    // Mountain never passable
    let map2 = WorldMap { width: 1, height: 1, tiles: vec![vec![Terrain::Mountain]] };
    assert_eq!(map2.is_passable(0, 0, Some(&AgentState::Swimming)), false);
}

#[test]
fn is_passable_doc_example() {
    let map = WorldMap { width: 1, height: 1, tiles: vec![vec![Terrain::Water]] };
    assert_eq!(map.is_passable(0, 0, Some(&AgentState::Swimming)), true);
    assert_eq!(map.is_passable(0, 0, Some(&AgentState::Idle)), false);
}

#[test]
fn is_passable_outside_map_is_false() {
    let map = grid(&["..", ".."]);
    assert!(!map.is_passable(-1, 0, None));
    assert!(!map.is_passable(0, -1, None));
    assert!(!map.is_passable(2, 0, None));
    assert!(!map.is_passable(0, 2, Some(&AgentState::Swimming)));
    assert!(map.is_passable(1, 1, None));
}

#[test]
fn forest_is_passable_for_everyone() {
    let map = grid(&["T"]);
    assert!(map.is_passable(0, 0, None));
    assert!(map.is_passable(0, 0, Some(&AgentState::Moving)));
}

#[test]
fn terrain_chars() {
    assert_eq!(Terrain::Grass.to_char(), '.');
    assert_eq!(Terrain::Forest.to_char(), 'T');
    assert_eq!(Terrain::Water.to_char(), '~');
    assert_eq!(Terrain::Mountain.to_char(), '^');
}

#[test]
fn terrain_from_generated_types() {
    assert_eq!(Terrain::from(TerrainType::Water), Terrain::Water);
    assert_eq!(Terrain::from(TerrainType::Dirt), Terrain::Grass);
    assert_eq!(Terrain::from(TerrainType::Grass), Terrain::Grass);
    assert_eq!(Terrain::from(TerrainType::Forest), Terrain::Forest);
    assert_eq!(Terrain::from(TerrainType::Mountain), Terrain::Mountain);
    assert_eq!(Terrain::from(TerrainType::Beach), Terrain::Grass);
}

#[test]
fn map_from_terrain_types_converts_every_cell() {
    let generated = vec![
        vec![TerrainType::Beach, TerrainType::Water],
        vec![TerrainType::Dirt, TerrainType::Mountain],
        vec![TerrainType::Forest, TerrainType::Grass],
    ];
    let map = WorldMap::from_terrain_types(2, 3, generated);
    assert_eq!(map.width, 2);
    assert_eq!(map.height, 3);
    assert_eq!(map.tiles.len(), 3);
    assert_eq!(map.tiles[0].len(), 2);
    assert_eq!(
        map.tiles,
        vec![
            vec![Terrain::Grass, Terrain::Water],
            vec![Terrain::Grass, Terrain::Mountain],
            vec![Terrain::Forest, Terrain::Grass],
        ]
    );
}

#[test]
fn render_ascii_lines() {
    let map = grid(&[".~", "T^", ".."]);
    assert_eq!(map.render_ascii(), ".~\nT^\n..\n");
}

#[test]
fn render_ascii_empty_map() {
    let map = WorldMap { width: 0, height: 0, tiles: vec![] };
    assert_eq!(map.render_ascii(), "");
}

#[test]
fn render_ascii_layout_positions() {
    let map = grid(&["..~.", "T...", "...^"]);
    let s: Vec<char> = map.render_ascii().chars().collect();
    let w = 4usize;
    assert_eq!(s.len(), 3 * (w + 1));
    for y in 0..3usize {
        for x in 0..w {
            assert_eq!(s[y * (w + 1) + x], map.tiles[y][x].to_char());
        }
        assert_eq!(s[y * (w + 1) + w], '\n');
    }
}

#[test]
fn nearest_water_on_water_is_distance_zero() {
    let map = grid(&["...", ".~.", "..."]);
    assert_eq!(map.find_nearest_water(1, 1), Some((1, 1, 0)));
}

#[test]
fn nearest_water_picks_closest() {
    let map = grid(&["~.....", "......", ".....~"]);
    // (5, 2) is 1 away from (5, 1); (0, 0) is 6 away.
    assert_eq!(map.find_nearest_water(5, 1), Some((5, 2, 1)));
    assert_eq!(map.find_nearest_water(1, 0), Some((0, 0, 1)));
    assert_eq!(map.find_nearest_water(3, 1), Some((5, 2, 3)));
}

#[test]
fn nearest_water_distance_goes_around_mountains() {
    // Every in-bounds cell is searched, whatever its terrain.
    let map = grid(&["^^^~", "^^^^", ".^^^"]);
    assert_eq!(map.find_nearest_water(0, 2), Some((3, 0, 5)));
}

#[test]
fn nearest_water_none_without_water() {
    let map = grid(&["..T", "^.."]);
    assert_eq!(map.find_nearest_water(0, 0), None);
}

#[test]
fn nearest_water_none_from_outside_the_map() {
    let map = grid(&["~~", "~~"]);
    assert_eq!(map.find_nearest_water(-1, 0), None);
    assert_eq!(map.find_nearest_water(2, 2), None);
}

#[test]
fn nearest_water_ties_follow_search_order() {
    // Left is searched before right.
    let map = grid(&["~.~"]);
    assert_eq!(map.find_nearest_water(1, 0), Some((0, 0, 1)));
    // Up is searched before down.
    let map = grid(&["~", ".", "~"]);
    assert_eq!(map.find_nearest_water(0, 1), Some((0, 0, 1)));
    // Left of the start before its own column.
    let map = grid(&["...", "~..", ".~."]);
    assert_eq!(map.find_nearest_water(1, 1), Some((0, 1, 1)));
    // Farther columns on the left before nearer ones.
    let map = grid(&[".....", ".~...", "~....", ".....", "....."]);
    assert_eq!(map.find_nearest_water(2, 2), Some((0, 2, 2)));
    // Right of the start before its own column.
    let map = grid(&[".....", ".....", ".....", "...~.", "..~.."]);
    assert_eq!(map.find_nearest_water(2, 2), Some((3, 3, 2)));
}

#[test]
fn food_states() {
    assert_ne!(Food::Absent, Food::Present);
}

#[test]
fn test_map_is_passable() {
    let generated = vec![
        vec![TerrainType::Grass, TerrainType::Water, TerrainType::Mountain, TerrainType::Beach, TerrainType::Dirt];
        5
    ];
    let map = WorldMap::from_terrain_types(5, 5, generated);
    for y in 0..5 {
        for x in 0..5 {
            // Should not panic, all tiles are valid
            let _ = map.is_passable(x, y, None);
        }
    }
}

#[test]
fn well_formed_only_when_rows_match_dimensions() {
    assert!(grid(&["..", ".."]).is_well_formed());
    assert!(WorldMap { width: 0, height: 0, tiles: vec![] }.is_well_formed());
    let short_row = WorldMap { width: 2, height: 2, tiles: vec![vec![Terrain::Grass; 2], vec![Terrain::Grass]] };
    assert!(!short_row.is_well_formed());
    let missing_row = WorldMap { width: 1, height: 2, tiles: vec![vec![Terrain::Grass]] };
    assert!(!missing_row.is_well_formed());
    let negative = WorldMap { width: -1, height: 0, tiles: vec![] };
    assert!(!negative.is_well_formed());
}
