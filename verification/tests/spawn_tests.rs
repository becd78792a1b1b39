use community_sim::map::{Terrain, WorldMap};
use community_sim::spawn_config::{AgentSpawnEntry, FoodSpawnEntry, Position, SpawnConfig};
use community_sim::spawning::{first_spawnable_draw, spawns_from_draws, initial_food_count, procedural_agent_types, random_agent_spawn, random_agent_spawns, random_spawn_cell, spawnable};

fn config() -> SpawnConfig {
    SpawnConfig {
        map: None,
        agents: Some(vec![
            AgentSpawnEntry { agent_type: "worker".to_string(), pos: Position { x: 1, y: 2 }, count: Some(2) },
            AgentSpawnEntry { agent_type: "scout".to_string(), pos: Position { x: 3, y: 4 }, count: None },
            AgentSpawnEntry { agent_type: "idle".to_string(), pos: Position { x: 0, y: 0 }, count: Some(0) },
        ]),
        food: Some(vec![
            FoodSpawnEntry { pos: Position { x: 5, y: 6 }, count: None },
            FoodSpawnEntry { pos: Position { x: 7, y: 8 }, count: Some(3) },
        ]),
        items: None,
        money: None,
    }
}

#[test]
fn food_cells_expand_counts() {
    assert_eq!(config().food_spawn_cells(), vec![(5, 6), (7, 8), (7, 8), (7, 8)]);
    let empty = SpawnConfig { map: None, agents: None, food: None, items: None, money: None };
    assert!(empty.food_spawn_cells().is_empty());
    assert!(empty.agent_spawn_requests().is_empty());
}

#[test]
fn agent_requests_expand_counts() {
    assert_eq!(
        config().agent_spawn_requests(),
        vec![("worker".to_string(), 1, 2), ("worker".to_string(), 1, 2), ("scout".to_string(), 3, 4)]
    );
}

#[test]
fn food_count_is_a_tenth_of_agents() {
    assert_eq!(initial_food_count(0), 0);
    assert_eq!(initial_food_count(1), 1);
    assert_eq!(initial_food_count(9), 1);
    assert_eq!(initial_food_count(10), 1);
    assert_eq!(initial_food_count(25), 2);
    assert_eq!(initial_food_count(100), 10);
}

#[test]
fn procedural_types_cycle() {
    assert_eq!(procedural_agent_types(2, 7, 3), vec![2, 0, 1, 2, 0]);
    assert_eq!(procedural_agent_types(5, 3, 0), Vec::<usize>::new());
}

#[test]
fn spawn_cell_is_grass_or_forest() {
    let map = WorldMap {
        width: 3,
        height: 2,
        tiles: vec![
            vec![Terrain::Water, Terrain::Mountain, Terrain::Water],
            vec![Terrain::Mountain, Terrain::Forest, Terrain::Water],
        ],
    };
    for _ in 0..20 {
        match random_spawn_cell(&map) {
            Some((x, y)) => assert_eq!((x, y), (1, 1)),
            None => {}
        }
    }
    assert!(spawnable(Terrain::Grass));
    assert!(!spawnable(Terrain::Water));
}

#[test]
fn spawn_cell_none_without_land() {
    let map = WorldMap { width: 2, height: 1, tiles: vec![vec![Terrain::Water, Terrain::Mountain]] };
    assert_eq!(random_spawn_cell(&map), None);
}

#[test]
fn spawn_cell_found_on_all_grass() {
    let map = WorldMap { width: 2, height: 2, tiles: vec![vec![Terrain::Grass; 2]; 2] };
    let (x, y) = random_spawn_cell(&map).unwrap();
    assert!((0..2).contains(&x) && (0..2).contains(&y));
    assert!(map.is_passable(x, y, None));
}


#[test]
fn first_spawnable_draw_takes_first_hit_within_limit() {
    let map = WorldMap { width: 2, height: 1, tiles: vec![vec![Terrain::Water, Terrain::Forest]] };
    assert_eq!(first_spawnable_draw(&map, &vec![(0, 0), (1, 0), (0, 0)]), Some((1, 0)));
    assert_eq!(first_spawnable_draw(&map, &vec![(0, 0), (0, 0)]), None);
    assert_eq!(first_spawnable_draw(&map, &vec![]), None);
    let mut misses = vec![(0, 0); 1001];
    misses.push((1, 0));
    assert_eq!(first_spawnable_draw(&map, &misses), None);
    misses[1000] = (1, 0);
    assert_eq!(first_spawnable_draw(&map, &misses), Some((1, 0)));
}

#[test]
fn any_spawnable_cell_finds_grass_or_forest() {
    let lake = WorldMap { width: 2, height: 2, tiles: vec![vec![Terrain::Water; 2]; 2] };
    assert!(!lake.any_spawnable_cell());
    let island = WorldMap { width: 2, height: 2, tiles: vec![vec![Terrain::Water, Terrain::Mountain], vec![Terrain::Water, Terrain::Forest]] };
    assert!(island.any_spawnable_cell());
}

#[test]
fn added_agents_on_a_meadow() {
    let meadow = WorldMap { width: 3, height: 3, tiles: vec![vec![Terrain::Grass; 3]; 3] };
    assert_eq!(random_agent_spawn(&meadow, 0), None);
    let (t, x, y) = random_agent_spawn(&meadow, 2).unwrap();
    assert_eq!(t, 0);
    assert!((0..3).contains(&x) && (0..3).contains(&y));
    let many = random_agent_spawns(&meadow, 100, 3);
    assert_eq!(many.len(), 100);
    assert!(many.iter().all(|&(t, x, y)| t < 3 && (0..3).contains(&x) && (0..3).contains(&y)));
    let lake = WorldMap { width: 2, height: 2, tiles: vec![vec![Terrain::Water; 2]; 2] };
    assert!(random_agent_spawns(&lake, 5, 1).is_empty());
    assert_eq!(random_agent_spawn(&lake, 1), None);
}

#[test]
fn spawns_from_draws_take_hits_until_count() {
    let map = WorldMap { width: 2, height: 1, tiles: vec![vec![Terrain::Water, Terrain::Grass]] };
    let draws = vec![(0, 0, 1), (1, 0, 2), (0, 0, 0), (1, 0, 0), (1, 0, 1)];
    assert_eq!(spawns_from_draws(&map, 2, &draws), vec![(2, 1, 0), (0, 1, 0)]);
    assert_eq!(spawns_from_draws(&map, 5, &draws), vec![(2, 1, 0), (0, 1, 0), (1, 1, 0)]);
    assert!(spawns_from_draws(&map, 0, &draws).is_empty());
    assert!(spawns_from_draws(&map, 3, &vec![(0, 0, 0); 10]).is_empty());
}

#[test]
fn added_agents_on_a_lake_need_no_types() {
    let lake = WorldMap { width: 2, height: 2, tiles: vec![vec![Terrain::Water; 2]; 2] };
    assert!(random_agent_spawns(&lake, 3, 0).is_empty());
}
