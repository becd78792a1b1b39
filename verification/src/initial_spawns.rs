//! The spawn requests that start a simulation: the agents that a spawn
//! configuration lists, topped up with procedurally placed agents, and the
//! initial food.
use vstd::prelude::*;
use crate::map::WorldMap;
use crate::spawn_config::{SpawnConfig, expand_agents, expand_food};
use crate::spawning::{
    is_spawnable,
    is_search_outcome,
    random_spawn_cell,
    initial_food_count,
    procedural_agent_types,
};

verus! {

/// The spawn requests queued at the start of a simulation.
#[derive(Debug)]
pub struct InitialSpawns {
    /// One request per agent: the index of its agent type and its cell.
    pub agents: Vec<(usize, i32, i32)>,
    /// One request per food item: its cell.
    pub food: Vec<(i32, i32)>,
    /// The number of agents counted: explicit and procedural.
    pub agent_count: usize,
}

/// The agent spawns (type name and cell) that a spawn configuration lists.
pub open spec fn explicit_agents(spawn_config: Option<&SpawnConfig>) -> Seq<(Seq<char>, i32, i32)> {
    match spawn_config {
        Some(cfg) => match cfg.agents {
            Some(entries) => expand_agents(entries@),
            None => Seq::empty(),
        },
        None => Seq::empty(),
    }
}

/// The food cells that a spawn configuration lists.
pub open spec fn explicit_food(spawn_config: Option<&SpawnConfig>) -> Seq<(i32, i32)> {
    match spawn_config {
        Some(cfg) => match cfg.food {
            Some(entries) => expand_food(entries@),
            None => Seq::empty(),
        },
        None => Seq::empty(),
    }
}

/// The amount of random food placed for `agents` agents: a tenth, at least
/// one when there are agents, none when there are none.
pub open spec fn food_amount(agents: nat) -> nat {
    if agents > 0 {
        if agents / 10 >= 1 {
            agents / 10
        } else {
            1
        }
    } else {
        0
    }
}

/// `i` is the first agent type named `name`.
pub open spec fn is_first_type_named(names: Seq<String>, name: Seq<char>, i: int) -> bool {
    &&& 0 <= i < names.len()
    &&& names[i]@ == name
    &&& forall|j: int| 0 <= j < i ==> (#[trigger] names[j])@ != name
}

/// Some agent type is named `name`.
pub open spec fn type_known(names: Seq<String>, name: Seq<char>) -> bool {
    exists|i: int| 0 <= i < names.len() && (#[trigger] names[i])@ == name
}

/// Every agent that the configuration lists has a known type.
pub open spec fn all_types_known(names: Seq<String>, requests: Seq<(Seq<char>, i32, i32)>) -> bool {
    forall|k: int| 0 <= k < requests.len() ==> type_known(names, #[trigger] requests[k].0)
}

/// The number of agents counted at start: those listed, or `num_agents` when
/// that is more.
pub open spec fn counted_agents(explicit: nat, num_agents: nat) -> nat {
    if num_agents > explicit {
        num_agents
    } else {
        explicit
    }
}

/// The index of the first agent type named `name`, if any.
pub fn type_index(names: &Vec<String>, name: &String) -> (r: Option<usize>)
    ensures
        match r {
            Some(i) => is_first_type_named(names@, name@, i as int),
            None => !type_known(names@, name@),
        },
{
    let mut i: usize = 0;
    while i < names.len()
        invariant
            i <= names@.len(),
            forall|j: int| 0 <= j < i ==> (#[trigger] names@[j])@ != name@,
        decreases names.len() - i,
    {
        if names[i] == *name {
            return Some(i);
        }
        i = i + 1;
    }
    None
}

/// Whether every agent that the configuration lists has a known type.
pub fn agent_types_known(spawn_config: Option<&SpawnConfig>, names: &Vec<String>) -> (ok: bool)
    ensures
        ok == all_types_known(names@, explicit_agents(spawn_config)),
{
    match spawn_config {
        None => true,
        Some(cfg) => {
            let requests = cfg.agent_spawn_requests();
            let ghost view = requests@.map_values(|r: (String, i32, i32)| (r.0@, r.1, r.2));
            let mut k: usize = 0;
            while k < requests.len()
                invariant
                    k <= requests@.len(),
                    view == requests@.map_values(|r: (String, i32, i32)| (r.0@, r.1, r.2)),
                    view == explicit_agents(spawn_config),
                    forall|j: int| 0 <= j < k ==> type_known(names@, #[trigger] view[j].0),
                decreases requests.len() - k,
            {
                assert(view[k as int].0 == requests@[k as int].0@);
                match type_index(names, &requests[k].0) {
                    Some(_) => {},
                    None => {
                        return false;
                    },
                }
                k = k + 1;
            }
            true
        },
    }
}

/// Builds the spawn requests that start a simulation on `map`.
///
/// The agent queue holds first the agents that the spawn configuration
/// lists, in order, each with the first agent type of its name; when
/// `num_agents` is more than that, procedural agents fill the remainder, on
/// random grass or forest cells, agent number `i` (counting the listed agents
/// first) taking type `i` modulo the number of types. The food queue holds
/// first the food cells that the configuration lists, in order, then
/// `initial_food_count` of the agents counted on random grass or forest
/// cells. Some cell must be grass or forest when anything is placed. Returns
/// `None` when the random draws for a cell all missed; on a map that is
/// grass and forest throughout they never do.
pub fn enqueue_initial_spawns(
    map: &WorldMap,
    num_agents: usize,
    agent_type_names: &Vec<String>,
    spawn_config: Option<&SpawnConfig>,
) -> (r: Option<InitialSpawns>)
    requires
        map.wf(),
        all_types_known(agent_type_names@, explicit_agents(spawn_config)),
        num_agents > explicit_agents(spawn_config).len() ==> agent_type_names@.len() > 0,
        counted_agents(explicit_agents(spawn_config).len(), num_agents as nat) > 0 ==> map.width
            > 0 && map.height > 0,
        counted_agents(explicit_agents(spawn_config).len(), num_agents as nat) > 0
            ==> map.has_spawnable_cell(),
    ensures
        match r {
            Some(s) => {
                let explicit = explicit_agents(spawn_config);
                let listed_food = explicit_food(spawn_config);
                &&& s.agent_count == counted_agents(explicit.len(), num_agents as nat)
                &&& s.agents@.len() == s.agent_count
                &&& forall|k: int|
                    0 <= k < explicit.len() ==> is_first_type_named(
                        agent_type_names@,
                        explicit[k].0,
                        (#[trigger] s.agents@[k]).0 as int,
                    ) && s.agents@[k].1 == explicit[k].1 && s.agents@[k].2 == explicit[k].2
                &&& forall|k: int|
                    explicit.len() <= k < s.agents@.len() ==> (#[trigger] s.agents@[k]).0 == k
                        % (agent_type_names@.len() as int) && map.in_bounds(
                        s.agents@[k].1 as int,
                        s.agents@[k].2 as int,
                    ) && is_spawnable(map.tile(s.agents@[k].1 as int, s.agents@[k].2 as int))
                &&& s.food@.len() == listed_food.len() + food_amount(s.agent_count as nat)
                &&& s.food@.subrange(0, listed_food.len() as int) == listed_food
                &&& forall|k: int|
                    listed_food.len() <= k < s.food@.len() ==> map.in_bounds(
                        (#[trigger] s.food@[k]).0 as int,
                        s.food@[k].1 as int,
                    ) && is_spawnable(map.tile(s.food@[k].0 as int, s.food@[k].1 as int))
            },
            None => counted_agents(explicit_agents(spawn_config).len(), num_agents as nat) > 0
                && exists|draws: Seq<(i32, i32)>| #[trigger] is_search_outcome(*map, draws, None),
        },
        map.all_spawnable() ==> r is Some,
{
    let ghost explicit = explicit_agents(spawn_config);
    let requests: Vec<(String, i32, i32)> = match spawn_config {
        Some(cfg) => cfg.agent_spawn_requests(),
        None => {
            let v: Vec<(String, i32, i32)> = Vec::new();
            assert(v@.map_values(|r: (String, i32, i32)| (r.0@, r.1, r.2)) =~= explicit);
            v
        },
    };
    let mut food: Vec<(i32, i32)> = match spawn_config {
        Some(cfg) => cfg.food_spawn_cells(),
        None => Vec::new(),
    };
    let ghost listed_food = food@;
    assert(listed_food == explicit_food(spawn_config));
    let ghost view = requests@.map_values(|r: (String, i32, i32)| (r.0@, r.1, r.2));
    assert(view == explicit);
    assert(view.len() == requests@.len());
    // The listed agents, with their type indices.
    let mut agents: Vec<(usize, i32, i32)> = Vec::new();
    let mut k: usize = 0;
    while k < requests.len()
        invariant
            k <= requests@.len(),
            view == requests@.map_values(|r: (String, i32, i32)| (r.0@, r.1, r.2)),
            view == explicit,
            all_types_known(agent_type_names@, explicit),
            agents@.len() == k,
            forall|j: int|
                0 <= j < k ==> is_first_type_named(
                    agent_type_names@,
                    explicit[j].0,
                    (#[trigger] agents@[j]).0 as int,
                ) && agents@[j].1 == explicit[j].1 && agents@[j].2 == explicit[j].2,
        decreases requests.len() - k,
    {
        assert(view[k as int].0 == requests@[k as int].0@);
        assert(type_known(agent_type_names@, explicit[k as int].0));
        let idx = match type_index(agent_type_names, &requests[k].0) {
            Some(i) => i,
            None => {
                return None;
            },
        };
        agents.push((idx, requests[k].1, requests[k].2));
        k = k + 1;
    }
    let explicit_len = requests.len();
    let mut agent_count = explicit_len;
    if num_agents > explicit_len {
        // Procedural agents fill the remainder.
        let types = procedural_agent_types(explicit_len, num_agents, agent_type_names.len());
        let mut j: usize = 0;
        while j < types.len()
            invariant
                map.wf(),
                map.width > 0,
                map.height > 0,
                explicit == explicit_agents(spawn_config),
                explicit_len == explicit.len(),
                counted_agents(explicit.len(), num_agents as nat) > 0,
                j <= types@.len(),
                types@.len() == num_agents - explicit_len,
                agent_type_names@.len() > 0,
                forall|i: int|
                    0 <= i < types@.len() ==> #[trigger] types@[i] == (explicit_len + i) % (
                    agent_type_names@.len() as int),
                agents@.len() == explicit_len + j,
                forall|i: int|
                    0 <= i < explicit_len ==> is_first_type_named(
                        agent_type_names@,
                        explicit[i].0,
                        (#[trigger] agents@[i]).0 as int,
                    ) && agents@[i].1 == explicit[i].1 && agents@[i].2 == explicit[i].2,
                forall|i: int|
                    explicit_len <= i < agents@.len() ==> (#[trigger] agents@[i]).0 == i % (
                    agent_type_names@.len() as int) && map.in_bounds(
                        agents@[i].1 as int,
                        agents@[i].2 as int,
                    ) && is_spawnable(map.tile(agents@[i].1 as int, agents@[i].2 as int)),
                j > 0 ==> map.has_spawnable_cell(),
            decreases types.len() - j,
        {
            match random_spawn_cell(map) {
                Some((x, y)) => {
                    assert(types@[j as int] == (explicit_len + j) % (agent_type_names@.len() as int));
                    agents.push((types[j], x, y));
                    assert(map.in_bounds(x as int, y as int) && is_spawnable(map.tile(x as int, y as int)));
                },
                None => {
                    return None;
                },
            }
            j = j + 1;
        }
        agent_count = num_agents;
    }
    let food_count = initial_food_count(agent_count);
    let listed_len = food.len();
    let mut f: usize = 0;
    while f < food_count
        invariant
            map.wf(),
            explicit == explicit_agents(spawn_config),
            food_count > 0 ==> map.width > 0 && map.height > 0,
            food_count > 0 ==> counted_agents(explicit.len(), num_agents as nat) > 0,
            f <= food_count,
            listed_len == listed_food.len(),
            food@.len() == listed_len + f,
            food@.subrange(0, listed_len as int) == listed_food,
            forall|i: int|
                listed_len <= i < food@.len() ==> map.in_bounds(
                    (#[trigger] food@[i]).0 as int,
                    food@[i].1 as int,
                ) && is_spawnable(map.tile(food@[i].0 as int, food@[i].1 as int)),
        decreases food_count - f,
    {
        match random_spawn_cell(map) {
            Some(cell) => {
                let ghost before = food@;
                food.push(cell);
                assert(food@.subrange(0, listed_len as int) =~= before.subrange(0, listed_len as int));
            },
            None => {
                return None;
            },
        }
        f = f + 1;
    }
    if food_count > 0 {
        assert(map.has_spawnable_cell()) by {
            let (x, y) = food@[listed_len as int];
            assert(map.in_bounds(x as int, y as int) && is_spawnable(map.tile(x as int, y as int)));
        }
    }
    Some(InitialSpawns { agents, food, agent_count })
}

} // verus!
