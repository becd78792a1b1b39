//! Data-driven spawn configuration and the spawn requests it lists.
use vstd::prelude::*;

verus! {

/// Explicit spawns and map size read from a spawn configuration file.
#[derive(Debug, Clone)]
pub struct SpawnConfig {
    pub map: Option<MapConfig>,
    pub agents: Option<Vec<AgentSpawnEntry>>,
    pub food: Option<Vec<FoodSpawnEntry>>,
    pub items: Option<Vec<ItemSpawnEntry>>,
    pub money: Option<Vec<MoneySpawnEntry>>,
}

#[derive(Debug, Clone)]
pub struct MapConfig {
    pub width: i32,
    pub height: i32,
}

/// `count` agents of the named type at `pos` (one when no count is given).
#[derive(Debug, Clone)]
pub struct AgentSpawnEntry {
    pub agent_type: String,
    pub pos: Position,
    pub count: Option<usize>,
}

/// `count` food items at `pos` (one when no count is given).
#[derive(Debug, Clone)]
pub struct FoodSpawnEntry {
    pub pos: Position,
    pub count: Option<usize>,
}

#[derive(Debug, Clone)]
pub struct ItemSpawnEntry {
    pub item_type: String,
    pub pos: Position,
    pub count: Option<usize>,
}

#[derive(Debug, Clone)]
pub struct MoneySpawnEntry {
    pub pos: Position,
    pub amount: u32,
    pub count: Option<usize>,
}

/// A map cell.
#[derive(Debug, Clone, Copy)]
pub struct Position {
    pub x: i32,
    pub y: i32,
}

/// How many spawns an entry stands for: its count, or one.
pub open spec fn entry_count(count: Option<usize>) -> nat {
    match count {
        Some(c) => c as nat,
        None => 1,
    }
}

/// The food cells of the entries, each repeated `count` times, in order.
pub open spec fn expand_food(entries: Seq<FoodSpawnEntry>) -> Seq<(i32, i32)>
    decreases entries.len(),
{
    if entries.len() == 0 {
        Seq::empty()
    } else {
        let e = entries.last();
        expand_food(entries.drop_last()) + Seq::new(entry_count(e.count), |i: int| (e.pos.x, e.pos.y))
    }
}

/// The agent spawn requests (type name and cell) of the entries, each
/// repeated `count` times, in order.
pub open spec fn expand_agents(entries: Seq<AgentSpawnEntry>) -> Seq<(Seq<char>, i32, i32)>
    decreases entries.len(),
{
    if entries.len() == 0 {
        Seq::empty()
    } else {
        let e = entries.last();
        expand_agents(entries.drop_last()) + Seq::new(
            entry_count(e.count),
            |i: int| (e.agent_type@, e.pos.x, e.pos.y),
        )
    }
}

fn count_of(count: Option<usize>) -> (n: usize)
    ensures
        n == entry_count(count),
{
    match count {
        Some(c) => c,
        None => 1,
    }
}

impl SpawnConfig {
    /// The food cells that the configuration asks for, one per food item.
    pub fn food_spawn_cells(&self) -> (cells: Vec<(i32, i32)>)
        ensures
            cells@ == match self.food {
                Some(v) => expand_food(v@),
                None => Seq::empty(),
            },
    {
        let mut cells: Vec<(i32, i32)> = Vec::new();
        match &self.food {
            None => {},
            Some(entries) => {
                let mut i: usize = 0;
                while i < entries.len()
                    invariant
                        i <= entries@.len(),
                        cells@ == expand_food(entries@.take(i as int)),
                    decreases entries@.len() - i,
                {
                    let e = &entries[i];
                    let n = count_of(e.count);
                    let ghost before = cells@;
                    let mut j: usize = 0;
                    while j < n
                        invariant
                            j <= n,
                            n == entry_count(e.count),
                            cells@ == before + Seq::new(j as nat, |k: int| (e.pos.x, e.pos.y)),
                        decreases n - j,
                    {
                        cells.push((e.pos.x, e.pos.y));
                        assert(cells@ =~= before + Seq::new((j + 1) as nat, |k: int| (e.pos.x, e.pos.y)));
                        j = j + 1;
                    }
                    assert(entries@.take(i + 1).drop_last() =~= entries@.take(i as int));
                    i = i + 1;
                }
                assert(entries@.take(entries@.len() as int) =~= entries@);
            },
        }
        cells
    }

    /// The agent spawns that the configuration asks for: type name and cell,
    /// one per agent.
    pub fn agent_spawn_requests(&self) -> (reqs: Vec<(String, i32, i32)>)
        ensures
            reqs@.map_values(|r: (String, i32, i32)| (r.0@, r.1, r.2)) == match self.agents {
                Some(v) => expand_agents(v@),
                None => Seq::empty(),
            },
    {
        let mut reqs: Vec<(String, i32, i32)> = Vec::new();
        match &self.agents {
            None => {
                assert(reqs@.map_values(|r: (String, i32, i32)| (r.0@, r.1, r.2)) =~= Seq::empty());
            },
            Some(entries) => {
                let mut i: usize = 0;
                while i < entries.len()
                    invariant
                        i <= entries@.len(),
                        reqs@.map_values(|r: (String, i32, i32)| (r.0@, r.1, r.2)) == expand_agents(
                            entries@.take(i as int),
                        ),
                    decreases entries@.len() - i,
                {
                    let e = &entries[i];
                    let n = count_of(e.count);
                    let ghost before = reqs@.map_values(|r: (String, i32, i32)| (r.0@, r.1, r.2));
                    let mut j: usize = 0;
                    while j < n
                        invariant
                            j <= n,
                            n == entry_count(e.count),
                            reqs@.map_values(|r: (String, i32, i32)| (r.0@, r.1, r.2)) == before
                                + Seq::new(j as nat, |k: int| (e.agent_type@, e.pos.x, e.pos.y)),
                        decreases n - j,
                    {
                        let ghost prev = reqs@;
                        reqs.push((e.agent_type.clone(), e.pos.x, e.pos.y));
                        assert(reqs@.map_values(|r: (String, i32, i32)| (r.0@, r.1, r.2)) =~= prev.map_values(
                            |r: (String, i32, i32)| (r.0@, r.1, r.2),
                        ).push((e.agent_type@, e.pos.x, e.pos.y)));
                        assert(reqs@.map_values(|r: (String, i32, i32)| (r.0@, r.1, r.2)) =~= before
                            + Seq::new((j + 1) as nat, |k: int| (e.agent_type@, e.pos.x, e.pos.y)));
                        j = j + 1;
                    }
                    assert(entries@.take(i + 1).drop_last() =~= entries@.take(i as int));
                    i = i + 1;
                }
                assert(entries@.take(entries@.len() as int) =~= entries@);
            },
        }
        reqs
    }
}

} // verus!
