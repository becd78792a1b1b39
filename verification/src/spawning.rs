//! Initial spawn placement: random spawn cells, the amount of food, and the
//! agent types of procedurally placed agents.
use vstd::prelude::*;
use rand::Rng;
use crate::map::{WorldMap, Terrain, terrain_passable};

verus! {

/// Agents and food are only placed on grass and forest.
pub open spec fn is_spawnable(t: Terrain) -> bool {
    t == Terrain::Grass || t == Terrain::Forest
}

impl WorldMap {
    /// Whether some in-bounds cell is grass or forest.
    pub open spec fn has_spawnable_cell(&self) -> bool {
        exists|x: int, y: int| self.in_bounds(x, y) && is_spawnable(#[trigger] self.tile(x, y))
    }

    /// Whether every in-bounds cell is grass or forest.
    pub open spec fn all_spawnable(&self) -> bool {
        forall|x: int, y: int| self.in_bounds(x, y) ==> is_spawnable(#[trigger] self.tile(x, y))
    }
}

impl WorldMap {
    /// Whether some cell of the map is grass or forest.
    pub fn any_spawnable_cell(&self) -> (b: bool)
        requires
            self.wf(),
        ensures
            b == self.has_spawnable_cell(),
    {
        let mut y: usize = 0;
        while y < self.tiles.len()
            invariant
                self.wf(),
                y <= self.tiles@.len(),
                forall|j: int, i: int|
                    0 <= j < y && 0 <= i < self.width ==> !is_spawnable(#[trigger] self.tile(i, j)),
            decreases self.tiles.len() - y,
        {
            let mut x: usize = 0;
            while x < self.tiles[y].len()
                invariant
                    self.wf(),
                    y < self.tiles@.len(),
                    x <= self.tiles@[y as int]@.len(),
                    forall|j: int, i: int|
                        0 <= j < y && 0 <= i < self.width ==> !is_spawnable(#[trigger] self.tile(i, j)),
                    forall|i: int| 0 <= i < x ==> !is_spawnable(#[trigger] self.tile(i, y as int)),
                decreases self.tiles@[y as int]@.len() - x,
            {
                if spawnable(self.tiles[y][x]) {
                    assert(self.in_bounds(x as int, y as int) && is_spawnable(self.tile(x as int, y as int)));
                    return true;
                }
                x = x + 1;
            }
            y = y + 1;
        }
        false
    }
}

/// The most random cells that are tried before spawn placement gives up.
pub const MAX_SPAWN_DRAWS: u32 = 1001;

/// `rand::thread_rng().gen_range(0..upper)`: a random integer in
/// `0..upper` from the thread-local generator. Which one is not stated.
#[verifier::external_body]
fn random_below(upper: i32) -> (r: i32)
    requires
        upper > 0,
    ensures
        0 <= r < upper,
{
    rand::thread_rng().gen_range(0..upper)
}

/// The first of the drawn cells that is grass or forest, if any.
pub open spec fn first_spawnable(map: WorldMap, draws: Seq<(i32, i32)>) -> Option<(i32, i32)>
    decreases draws.len(),
{
    if draws.len() == 0 {
        None
    } else if is_spawnable(map.tile(draws[0].0 as int, draws[0].1 as int)) {
        Some(draws[0])
    } else {
        first_spawnable(map, draws.drop_first())
    }
}

/// `r` is what a search over `MAX_SPAWN_DRAWS` cells drawn on the map gives:
/// the first of them that is grass or forest, or `None` when all miss.
pub open spec fn is_search_outcome(map: WorldMap, draws: Seq<(i32, i32)>, r: Option<(i32, i32)>) -> bool {
    &&& draws.len() == MAX_SPAWN_DRAWS
    &&& forall|i: int| 0 <= i < draws.len() ==> map.in_bounds((#[trigger] draws[i]).0 as int, draws[i].1 as int)
    &&& r == first_spawnable(map, draws)
}

/// What the first spawnable draw can be: one of the draws, grass or forest;
/// there is one as soon as a draw is grass or forest.
proof fn lemma_first_spawnable(map: WorldMap, draws: Seq<(i32, i32)>)
    ensures
        first_spawnable(map, draws) matches Some(c) ==> draws.contains(c) && is_spawnable(
            map.tile(c.0 as int, c.1 as int),
        ),
        (exists|i: int| 0 <= i < draws.len() && is_spawnable(map.tile((#[trigger] draws[i]).0 as int, draws[i].1 as int)))
            ==> first_spawnable(map, draws) is Some,
    decreases draws.len(),
{
    if draws.len() > 0 {
        let tail = draws.drop_first();
        lemma_first_spawnable(map, tail);
        if let Some(c) = first_spawnable(map, tail) {
            if tail.contains(c) {
                let j = choose|j: int| 0 <= j < tail.len() && tail[j] == c;
                assert(draws[j + 1] == c);
            }
        }
        if exists|i: int| 0 <= i < draws.len() && is_spawnable(map.tile((#[trigger] draws[i]).0 as int, draws[i].1 as int)) {
            let i = choose|i: int| 0 <= i < draws.len() && is_spawnable(map.tile((#[trigger] draws[i]).0 as int, draws[i].1 as int));
            if i > 0 {
                assert(tail[i - 1] == draws[i]);
            }
        }
    }
}

/// Judges drawn cells: the first of the first `MAX_SPAWN_DRAWS` of them that
/// is grass or forest, or `None` when all of those miss.
pub fn first_spawnable_draw(map: &WorldMap, draws: &Vec<(i32, i32)>) -> (r: Option<(i32, i32)>)
    requires
        map.wf(),
        forall|i: int| 0 <= i < draws@.len() ==> map.in_bounds((#[trigger] draws@[i]).0 as int, draws@[i].1 as int),
    ensures
        r == first_spawnable(*map, draws@.take(
            if draws@.len() <= MAX_SPAWN_DRAWS { draws@.len() as int } else { MAX_SPAWN_DRAWS as int },
        )),
{
    let n: usize = if draws.len() <= MAX_SPAWN_DRAWS as usize {
        draws.len()
    } else {
        MAX_SPAWN_DRAWS as usize
    };
    let ghost t = draws@.take(n as int);
    let mut i: usize = 0;
    assert(t.skip(0) =~= t);
    while i < n
        invariant
            map.wf(),
            n <= draws@.len(),
            t == draws@.take(n as int),
            n == (if draws@.len() <= MAX_SPAWN_DRAWS { draws@.len() as int } else { MAX_SPAWN_DRAWS as int }),
            i <= n,
            forall|j: int| 0 <= j < draws@.len() ==> map.in_bounds((#[trigger] draws@[j]).0 as int, draws@[j].1 as int),
            first_spawnable(*map, t) == first_spawnable(*map, t.skip(i as int)),
        decreases n - i,
    {
        let (x, y) = draws[i];
        assert(t.skip(i as int)[0] == draws@[i as int]);
        assert(t.skip(i as int).len() > 0);
        if spawnable(map.tiles[y as usize][x as usize]) {
            return Some((x, y));
        }
        assert(t.skip(i as int).drop_first() =~= t.skip(i + 1));
        i = i + 1;
    }
    assert(t.skip(n as int).len() == 0);
    None
}

/// `rand::thread_rng().gen_range(0..upper)`: a random index below `upper`
/// from the thread-local generator. Which one is not stated.
#[verifier::external_body]
fn random_index(upper: usize) -> (r: usize)
    requires
        upper > 0,
    ensures
        r < upper,
{
    rand::thread_rng().gen_range(0..upper)
}

/// The most random cells tried per agent when adding agents.
pub const DRAWS_PER_ADDED_AGENT: usize = 1000;

/// Whether a terrain accepts a spawned agent or food item.
pub fn spawnable(t: Terrain) -> (b: bool)
    ensures
        b == is_spawnable(t),
{
    match t {
        Terrain::Grass | Terrain::Forest => true,
        _ => false,
    }
}

/// Draws `MAX_SPAWN_DRAWS` random cells of the map and takes the first that
/// is grass or forest (`first_spawnable_draw`), or `None` when every draw
/// missed. On a map that is grass and forest throughout the first draw is
/// taken, so a cell is always found there.
pub fn random_spawn_cell(map: &WorldMap) -> (r: Option<(i32, i32)>)
    requires
        map.wf(),
        map.width > 0,
        map.height > 0,
    ensures
        r matches Some((x, y)) ==> map.in_bounds(x as int, y as int) && is_spawnable(
            map.tile(x as int, y as int),
        ),
        !map.has_spawnable_cell() ==> r is None,
        map.all_spawnable() ==> r is Some,
        exists|draws: Seq<(i32, i32)>| #[trigger] is_search_outcome(*map, draws, r),
{
    let mut draws: Vec<(i32, i32)> = Vec::new();
    let mut k: u32 = 0;
    while k < MAX_SPAWN_DRAWS
        invariant
            map.wf(),
            map.width > 0,
            map.height > 0,
            k <= MAX_SPAWN_DRAWS,
            draws@.len() == k,
            forall|i: int| 0 <= i < draws@.len() ==> map.in_bounds((#[trigger] draws@[i]).0 as int, draws@[i].1 as int),
        decreases MAX_SPAWN_DRAWS - k,
    {
        let x = random_below(map.width);
        let y = random_below(map.height);
        draws.push((x, y));
        k = k + 1;
    }
    let r = first_spawnable_draw(map, &draws);
    proof {
        let d = draws@;
        assert(d.take(d.len() as int) =~= d);
        lemma_first_spawnable(*map, d);
        assert(is_search_outcome(*map, d, r));
        if let Some(c) = r {
            let j = choose|j: int| 0 <= j < d.len() && d[j] == c;
            assert(map.in_bounds(d[j].0 as int, d[j].1 as int));
        }
        if map.all_spawnable() {
            assert(map.in_bounds(d[0].0 as int, d[0].1 as int));
            assert(is_spawnable(map.tile(d[0].0 as int, d[0].1 as int)));
        }
        if r is Some && !map.has_spawnable_cell() {
            let c = r->0;
            assert(map.in_bounds(c.0 as int, c.1 as int) && is_spawnable(map.tile(c.0 as int, c.1 as int)));
        }
    }
    r
}

/// The cell of a spawn request, if any.
pub open spec fn spawn_cell(r: Option<(usize, i32, i32)>) -> Option<(i32, i32)> {
    match r {
        Some((_, x, y)) => Some((x, y)),
        None => None,
    }
}

/// The spawn request for one agent added at a random cell: the first agent
/// type on the first grass or forest cell of a random search
/// (`random_spawn_cell`). `None` when there is no agent type or the search
/// missed.
pub fn random_agent_spawn(map: &WorldMap, type_count: usize) -> (r: Option<(usize, i32, i32)>)
    requires
        map.wf(),
        map.width > 0,
        map.height > 0,
    ensures
        type_count == 0 ==> r is None,
        r matches Some((t, x, y)) ==> t == 0 && map.in_bounds(x as int, y as int) && is_spawnable(
            map.tile(x as int, y as int),
        ),
        type_count > 0 && map.all_spawnable() ==> r is Some,
        type_count > 0 ==> exists|draws: Seq<(i32, i32)>|
            #[trigger] is_search_outcome(*map, draws, spawn_cell(r)),
{
    let cell = random_spawn_cell(map);
    if type_count == 0 {
        return None;
    }
    match cell {
        Some((x, y)) => Some((0, x, y)),
        None => None,
    }
}

/// The spawns that a sequence of draws (a cell and an agent type index
/// each) gives, in order: every draw on grass or forest places an agent of
/// its type there, until `count` agents are placed.
pub open spec fn spawns_of_draws(map: WorldMap, count: nat, draws: Seq<(i32, i32, usize)>) -> Seq<
    (usize, i32, i32),
>
    decreases draws.len(),
{
    if draws.len() == 0 || count == 0 {
        Seq::empty()
    } else if is_spawnable(map.tile(draws[0].0 as int, draws[0].1 as int)) {
        seq![(draws[0].2, draws[0].0, draws[0].1)] + spawns_of_draws(
            map,
            (count - 1) as nat,
            draws.drop_first(),
        )
    } else {
        spawns_of_draws(map, count, draws.drop_first())
    }
}

/// What the spawns of some draws are made of: at most `count` of them, each a
/// draw on grass or forest; all `count` when enough draws are grass or forest.
proof fn lemma_spawns_of_draws(map: WorldMap, count: nat, draws: Seq<(i32, i32, usize)>)
    ensures
        spawns_of_draws(map, count, draws).len() <= count,
        forall|k: int|
            0 <= k < spawns_of_draws(map, count, draws).len() ==> exists|i: int|
                0 <= i < draws.len() && #[trigger] spawns_of_draws(map, count, draws)[k] == (
                    draws[i].2,
                    draws[i].0,
                    draws[i].1,
                ) && is_spawnable(map.tile(draws[i].0 as int, draws[i].1 as int)),
        (forall|i: int|
            0 <= i < draws.len() ==> is_spawnable(
                map.tile((#[trigger] draws[i]).0 as int, draws[i].1 as int),
            )) && draws.len() >= count ==> spawns_of_draws(map, count, draws).len() == count,
    decreases draws.len(),
{
    if draws.len() > 0 && count > 0 {
        let tail = draws.drop_first();
        let c = if is_spawnable(map.tile(draws[0].0 as int, draws[0].1 as int)) {
            (count - 1) as nat
        } else {
            count
        };
        lemma_spawns_of_draws(map, c, tail);
        let r = spawns_of_draws(map, count, draws);
        let rt = spawns_of_draws(map, c, tail);
        assert forall|k: int| 0 <= k < r.len() implies exists|i: int|
            0 <= i < draws.len() && #[trigger] r[k] == (draws[i].2, draws[i].0, draws[i].1)
                && is_spawnable(map.tile(draws[i].0 as int, draws[i].1 as int)) by {
            if is_spawnable(map.tile(draws[0].0 as int, draws[0].1 as int)) {
                if k == 0 {
                    assert(r[0] == (draws[0].2, draws[0].0, draws[0].1));
                } else {
                    assert(r[k] == rt[k - 1]);
                    let i = choose|i: int|
                        0 <= i < tail.len() && #[trigger] rt[k - 1] == (tail[i].2, tail[i].0, tail[i].1)
                            && is_spawnable(map.tile(tail[i].0 as int, tail[i].1 as int));
                    assert(tail[i] == draws[i + 1]);
                }
            } else {
                let i = choose|i: int|
                    0 <= i < tail.len() && #[trigger] rt[k] == (tail[i].2, tail[i].0, tail[i].1)
                        && is_spawnable(map.tile(tail[i].0 as int, tail[i].1 as int));
                assert(tail[i] == draws[i + 1]);
            }
        }
        if forall|i: int|
            0 <= i < draws.len() ==> is_spawnable(
                map.tile((#[trigger] draws[i]).0 as int, draws[i].1 as int),
            ) {
            assert forall|i: int| 0 <= i < tail.len() implies is_spawnable(
                map.tile((#[trigger] tail[i]).0 as int, tail[i].1 as int),
            ) by {
                assert(tail[i] == draws[i + 1]);
            }
            assert(is_spawnable(map.tile(draws[0].0 as int, draws[0].1 as int)));
        }
    }
}

/// The spawns that given draws (a cell on the map and an agent type index
/// each) make: each draw on grass or forest places an agent of its type
/// there, in order, until `count` agents are placed.
pub fn spawns_from_draws(map: &WorldMap, count: usize, draws: &Vec<(i32, i32, usize)>) -> (r: Vec<
    (usize, i32, i32),
>)
    requires
        map.wf(),
        forall|i: int|
            0 <= i < draws@.len() ==> map.in_bounds(
                (#[trigger] draws@[i]).0 as int,
                draws@[i].1 as int,
            ),
    ensures
        r@ == spawns_of_draws(*map, count as nat, draws@),
{
    let mut r: Vec<(usize, i32, i32)> = Vec::new();
    let mut i: usize = 0;
    assert(draws@.skip(0) =~= draws@);
    assert(r@ + spawns_of_draws(*map, count as nat, draws@) =~= spawns_of_draws(
        *map,
        count as nat,
        draws@,
    ));
    while i < draws.len() && r.len() < count
        invariant
            map.wf(),
            forall|j: int|
                0 <= j < draws@.len() ==> map.in_bounds(
                    (#[trigger] draws@[j]).0 as int,
                    draws@[j].1 as int,
                ),
            i <= draws@.len(),
            r@.len() <= count,
            r@ + spawns_of_draws(*map, (count - r@.len()) as nat, draws@.skip(i as int))
                == spawns_of_draws(*map, count as nat, draws@),
        decreases draws.len() - i,
    {
        let (x, y, t) = draws[i];
        let ghost rest = draws@.skip(i as int);
        let ghost left = (count - r@.len()) as nat;
        assert(rest[0] == draws@[i as int]);
        assert(rest.drop_first() =~= draws@.skip(i + 1));
        let ghost before = r@;
        if spawnable(map.tiles[y as usize][x as usize]) {
            r.push((t, x, y));
            assert(before + spawns_of_draws(*map, left, rest) =~= r@ + spawns_of_draws(
                *map,
                (left - 1) as nat,
                draws@.skip(i + 1),
            ));
        }
        i = i + 1;
    }
    proof {
        if i == draws.len() {
            assert(draws@.skip(i as int).len() == 0);
        }
        assert(r@ =~= spawns_of_draws(*map, count as nat, draws@));
    }
    r
}

/// The draws of an add-agents request: `count * DRAWS_PER_ADDED_AGENT`
/// cells of the map, each with an agent type index below `type_count` (when
/// there is a type), and the spawns are those they make.
pub open spec fn is_spawn_outcome(
    map: WorldMap,
    count: nat,
    type_count: nat,
    draws: Seq<(i32, i32, usize)>,
    spawns: Seq<(usize, i32, i32)>,
) -> bool {
    &&& draws.len() == count * DRAWS_PER_ADDED_AGENT
    &&& forall|i: int|
        0 <= i < draws.len() ==> map.in_bounds((#[trigger] draws[i]).0 as int, draws[i].1 as int)
            && (type_count > 0 ==> draws[i].2 < type_count)
    &&& spawns == spawns_of_draws(map, count, draws)
}

/// The spawn requests for `count` agents added at random cells: up to
/// `DRAWS_PER_ADDED_AGENT` random cells are drawn per agent, each with a
/// random agent type, and each cell drawn on grass or forest takes an agent
/// of its type, until `count` agents are placed (`spawns_from_draws`).
pub fn random_agent_spawns(map: &WorldMap, count: usize, type_count: usize) -> (spawns: Vec<
    (usize, i32, i32),
>)
    requires
        map.wf(),
        map.width > 0,
        map.height > 0,
        count > 0 && map.has_spawnable_cell() ==> type_count > 0,
        count <= usize::MAX / DRAWS_PER_ADDED_AGENT,
    ensures
        spawns@.len() <= count,
        forall|k: int|
            0 <= k < spawns@.len() ==> (#[trigger] spawns@[k]).0 < type_count && map.in_bounds(
                spawns@[k].1 as int,
                spawns@[k].2 as int,
            ) && is_spawnable(map.tile(spawns@[k].1 as int, spawns@[k].2 as int)),
        map.all_spawnable() ==> spawns@.len() == count,
        !map.has_spawnable_cell() ==> spawns@.len() == 0,
        exists|draws: Seq<(i32, i32, usize)>|
            #[trigger] is_spawn_outcome(*map, count as nat, type_count as nat, draws, spawns@),
{
    let limit = count * DRAWS_PER_ADDED_AGENT;
    let mut draws: Vec<(i32, i32, usize)> = Vec::new();
    while draws.len() < limit
        invariant
            map.wf(),
            map.width > 0,
            map.height > 0,
            limit == count * DRAWS_PER_ADDED_AGENT,
            draws@.len() <= limit,
            forall|i: int|
                0 <= i < draws@.len() ==> map.in_bounds(
                    (#[trigger] draws@[i]).0 as int,
                    draws@[i].1 as int,
                ) && (type_count > 0 ==> draws@[i].2 < type_count),
        decreases limit - draws.len(),
    {
        let x = random_below(map.width);
        let y = random_below(map.height);
        let t = if type_count > 0 {
            random_index(type_count)
        } else {
            0
        };
        draws.push((x, y, t));
    }
    let spawns = spawns_from_draws(map, count, &draws);
    proof {
        let d = draws@;
        lemma_spawns_of_draws(*map, count as nat, d);
        assert(is_spawn_outcome(*map, count as nat, type_count as nat, d, spawns@));
        assert forall|k: int| 0 <= k < spawns@.len() implies (#[trigger] spawns@[k]).0 < type_count
            && map.in_bounds(spawns@[k].1 as int, spawns@[k].2 as int) && is_spawnable(
            map.tile(spawns@[k].1 as int, spawns@[k].2 as int),
        ) by {
            let i = choose|i: int|
                0 <= i < d.len() && #[trigger] spawns_of_draws(*map, count as nat, d)[k] == (
                    d[i].2,
                    d[i].0,
                    d[i].1,
                ) && is_spawnable(map.tile(d[i].0 as int, d[i].1 as int));
            assert(map.in_bounds(d[i].0 as int, d[i].1 as int));
            assert(map.has_spawnable_cell());
        }
        if map.all_spawnable() {
            assert forall|i: int| 0 <= i < d.len() implies is_spawnable(
                map.tile((#[trigger] d[i]).0 as int, d[i].1 as int),
            ) by {
                assert(map.in_bounds(d[i].0 as int, d[i].1 as int));
            }
            assert(d.len() >= count) by (nonlinear_arith)
                requires
                    d.len() == count * DRAWS_PER_ADDED_AGENT,
                    DRAWS_PER_ADDED_AGENT == 1000,
            ;
        }
        if !map.has_spawnable_cell() && spawns@.len() > 0 {
            let i = choose|i: int|
                0 <= i < d.len() && #[trigger] spawns_of_draws(*map, count as nat, d)[0] == (
                    d[i].2,
                    d[i].0,
                    d[i].1,
                ) && is_spawnable(map.tile(d[i].0 as int, d[i].1 as int));
            assert(map.in_bounds(d[i].0 as int, d[i].1 as int));
        }
    }
    spawns
}

/// The number of food items placed at start: a tenth of the agents, at
/// least one when there are agents, none when there are none.
pub fn initial_food_count(agent_count: usize) -> (n: usize)
    ensures
        n == if agent_count > 0 {
            if agent_count / 10 >= 1 {
                agent_count / 10
            } else {
                1
            }
        } else {
            0
        },
{
    if agent_count > 0 {
        let tenth = agent_count / 10;
        if tenth >= 1 {
            tenth
        } else {
            1
        }
    } else {
        0
    }
}

/// The agent type indices of the agents placed procedurally after
/// `explicit_count` explicitly configured ones, up to `num_agents`: agent
/// number `i` takes type `i % type_count`.
pub fn procedural_agent_types(explicit_count: usize, num_agents: usize, type_count: usize) -> (types:
    Vec<usize>)
    requires
        num_agents > explicit_count ==> type_count > 0,
    ensures
        types@.len() == if num_agents > explicit_count {
            num_agents - explicit_count
        } else {
            0
        },
        forall|k: int|
            0 <= k < types@.len() ==> #[trigger] types@[k] == (explicit_count + k) % (type_count as int),
{
    let mut types: Vec<usize> = Vec::new();
    if num_agents > explicit_count {
        let mut i: usize = explicit_count;
        while i < num_agents
            invariant
                explicit_count <= i <= num_agents,
                type_count > 0,
                types@.len() == i - explicit_count,
                forall|k: int|
                    0 <= k < types@.len() ==> #[trigger] types@[k] == (explicit_count + k) % (
                    type_count as int),
            decreases num_agents - i,
        {
            types.push(i % type_count);
            i = i + 1;
        }
    }
    types
}

/// Spawn cells can be entered by every agent, swimming or not.
pub proof fn lemma_spawnable_is_passable(t: Terrain, swimming: bool)
    requires
        is_spawnable(t),
    ensures
        terrain_passable(t, swimming),
{
}

} // verus!
