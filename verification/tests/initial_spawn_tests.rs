use community_sim::initial_spawns::{agent_types_known, enqueue_initial_spawns, type_index};
use community_sim::map::{Terrain, WorldMap};
use community_sim::spawn_config::{AgentSpawnEntry, FoodSpawnEntry, Position, SpawnConfig};

fn names(list: &[&str]) -> Vec<String> {
    list.iter().map(|s| s.to_string()).collect()
}

fn meadow(side: i32) -> WorldMap {
    WorldMap { width: side, height: side, tiles: vec![vec![Terrain::Grass; side as usize]; side as usize] }
}

fn listed(entries: Vec<(&str, i32, i32, Option<usize>)>) -> SpawnConfig {
    SpawnConfig {
        map: None,
        agents: Some(
            entries
                .into_iter()
                .map(|(t, x, y, count)| AgentSpawnEntry { agent_type: t.to_string(), pos: Position { x, y }, count })
                .collect(),
        ),
        food: Some(vec![FoodSpawnEntry { pos: Position { x: 0, y: 0 }, count: Some(4) }]),
        items: None,
        money: None,
    }
}

#[test]
fn procedural_agents_cycle_through_types() {
    let map = meadow(5);
    let spawns = enqueue_initial_spawns(&map, 20, &names(&["worker", "scout"]), None).unwrap();
    assert_eq!(spawns.agent_count, 20);
    assert_eq!(spawns.agents.len(), 20);
    for (k, (t, x, y)) in spawns.agents.iter().enumerate() {
        assert_eq!(*t, k % 2);
        assert!((0..5).contains(x) && (0..5).contains(y));
    }
    assert_eq!(spawns.food.len(), 2);
}

#[test]
fn listed_agents_keep_their_cells_and_types() {
    let map = meadow(5);
    let cfg = listed(vec![("scout", 1, 2, Some(2)), ("worker", 3, 4, None)]);
    let types = names(&["worker", "scout", "scout"]);
    assert!(agent_types_known(Some(&cfg), &types));
    let spawns = enqueue_initial_spawns(&map, 2, &types, Some(&cfg)).unwrap();
    assert_eq!(spawns.agents, vec![(1, 1, 2), (1, 1, 2), (0, 3, 4)]);
    assert_eq!(spawns.agent_count, 3);
    // The four listed food items, then one random item for three agents.
    assert_eq!(spawns.food.len(), 5);
    assert_eq!(&spawns.food[..4], &[(0, 0), (0, 0), (0, 0), (0, 0)]);
}

#[test]
fn procedural_agents_fill_the_remainder() {
    let map = meadow(4);
    let cfg = listed(vec![("worker", 1, 1, Some(2))]);
    let types = names(&["worker", "scout", "queen"]);
    let spawns = enqueue_initial_spawns(&map, 5, &types, Some(&cfg)).unwrap();
    assert_eq!(spawns.agent_count, 5);
    assert_eq!(&spawns.agents[..2], &[(0, 1, 1), (0, 1, 1)]);
    let kinds: Vec<usize> = spawns.agents.iter().map(|a| a.0).collect();
    assert_eq!(kinds, vec![0, 0, 2, 0, 1]);
    assert_eq!(spawns.food.len(), 5);
    assert_eq!(&spawns.food[..4], &[(0, 0), (0, 0), (0, 0), (0, 0)]);
}

#[test]
fn no_agents_no_food() {
    let empty = WorldMap { width: 0, height: 0, tiles: vec![] };
    let spawns = enqueue_initial_spawns(&empty, 0, &Vec::new(), None).unwrap();
    assert!(spawns.agents.is_empty());
    assert!(spawns.food.is_empty());
    assert_eq!(spawns.agent_count, 0);
}

#[test]
fn no_spawnable_cell_places_nothing() {
    let lake = WorldMap { width: 3, height: 3, tiles: vec![vec![Terrain::Water; 3]; 3] };
    assert!(!lake.any_spawnable_cell());
    let spawns = enqueue_initial_spawns(&lake, 0, &names(&["worker"]), None).unwrap();
    assert!(spawns.agents.is_empty() && spawns.food.is_empty());
}

#[test]
fn unknown_listed_type_is_reported() {
    let cfg = listed(vec![("dragon", 0, 0, None)]);
    assert!(!agent_types_known(Some(&cfg), &names(&["worker"])));
    assert!(agent_types_known(None, &Vec::new()));
    assert_eq!(type_index(&names(&["a", "b", "b"]), &"b".to_string()), Some(1));
    assert_eq!(type_index(&names(&["a"]), &"z".to_string()), None);
}

#[test]
fn listed_agents_on_a_small_meadow() {
    let map = WorldMap { width: 2, height: 1, tiles: vec![vec![Terrain::Grass, Terrain::Grass]] };
    let cfg = SpawnConfig {
        map: None,
        agents: Some(vec![AgentSpawnEntry { agent_type: "worker".to_string(), pos: Position { x: 1, y: 0 }, count: Some(3) }]),
        food: None,
        items: None,
        money: None,
    };
    let spawns = enqueue_initial_spawns(&map, 1, &names(&["worker"]), Some(&cfg)).unwrap();
    assert_eq!(spawns.agent_count, 3);
    assert_eq!(spawns.agents, vec![(0, 1, 0), (0, 1, 0), (0, 1, 0)]);
    assert_eq!(spawns.food.len(), 1);
    assert!(spawns.food[0] == (0, 0) || spawns.food[0] == (1, 0));
}
