//! ASCII snapshot of a simulation: terrain with food and agents drawn on top.
use vstd::prelude::*;
use crate::map::{WorldMap, terrain_char, ascii_lines};
use crate::text::push_char;

verus! {

/// Whether one of the positions is the cell `(x, y)`.
pub open spec fn occupies(cells: Seq<(i32, i32)>, x: int, y: int) -> bool {
    exists|i: int| 0 <= i < cells.len() && (#[trigger] cells[i]).0 == x && cells[i].1 == y
}

/// The character shown at `(x, y)`: an agent (`A`) hides food (`F`), and
/// food hides the terrain.
pub open spec fn snapshot_char(
    map: WorldMap,
    food: Seq<(i32, i32)>,
    agents: Seq<(i32, i32)>,
    x: int,
    y: int,
) -> char {
    if occupies(agents, x, y) {
        'A'
    } else if occupies(food, x, y) {
        'F'
    } else {
        terrain_char(map.tile(x, y))
    }
}

/// The rows of characters of a snapshot.
pub open spec fn snapshot_rows(map: WorldMap, food: Seq<(i32, i32)>, agents: Seq<(i32, i32)>) -> Seq<
    Seq<char>,
> {
    Seq::new(
        map.height as nat,
        |y: int| Seq::new(map.width as nat, |x: int| snapshot_char(map, food, agents, x, y)),
    )
}

/// Renders the terrain with food and agents drawn on top, one line per map
/// row. `food` and `agents` hold the cells (positions rounded to the
/// nearest cell) of food items and agents; cells outside the map are
/// ignored.
pub fn render_simulation_ascii(
    map: &WorldMap,
    food: &Vec<(i32, i32)>,
    agents: &Vec<(i32, i32)>,
) -> (ascii: String)
    requires
        map.wf(),
    ensures
        ascii@ == ascii_lines(snapshot_rows(*map, food@, agents@)),
{
    let h = map.height as usize;
    let w = map.width as usize;
    // Terrain layer.
    let mut buffer: Vec<Vec<char>> = Vec::new();
    let mut y: usize = 0;
    while y < h
        invariant
            map.wf(),
            h == map.height,
            w == map.width,
            y <= h,
            buffer@.len() == y,
            forall|j: int| 0 <= j < y ==> #[trigger] buffer@[j]@.len() == w,
            forall|j: int, i: int|
                0 <= j < y && 0 <= i < w ==> #[trigger] buffer@[j]@[i] == terrain_char(map.tile(i, j)),
        decreases h - y,
    {
        let mut row: Vec<char> = Vec::new();
        let mut x: usize = 0;
        while x < w
            invariant
                map.wf(),
                y < h,
                h == map.height,
                w == map.width,
                x <= w,
                row@.len() == x,
                forall|i: int| 0 <= i < x ==> #[trigger] row@[i] == terrain_char(map.tile(i, y as int)),
            decreases w - x,
        {
            row.push(map.tiles[y][x].to_char());
            x = x + 1;
        }
        buffer.push(row);
        y = y + 1;
    }
    // Food layer.
    let mut k: usize = 0;
    while k < food.len()
        invariant
            map.wf(),
            h == map.height,
            w == map.width,
            k <= food@.len(),
            buffer@.len() == h,
            forall|j: int| 0 <= j < h ==> #[trigger] buffer@[j]@.len() == w,
            forall|j: int, i: int|
                0 <= j < h && 0 <= i < w ==> #[trigger] buffer@[j]@[i] == if occupies(
                    food@.take(k as int),
                    i,
                    j,
                ) {
                    'F'
                } else {
                    terrain_char(map.tile(i, j))
                },
        decreases food@.len() - k,
    {
        let (fx, fy) = food[k];
        if fx >= 0 && fy >= 0 && (fx as usize) < w && (fy as usize) < h {
            buffer[fy as usize][fx as usize] = 'F';
        }
        proof {
            assert forall|j: int, i: int| 0 <= j < h && 0 <= i < w implies #[trigger] buffer@[j]@[i]
                == if occupies(food@.take(k + 1), i, j) {
                'F'
            } else {
                terrain_char(map.tile(i, j))
            } by {
                let t1 = food@.take(k + 1);
                let t0 = food@.take(k as int);
                assert(t1[k as int] == (fx, fy));
                if occupies(t0, i, j) {
                    let n = choose|n: int| 0 <= n < t0.len() && (#[trigger] t0[n]).0 == i && t0[n].1 == j;
                    assert(t1[n] == t0[n]);
                }
                if occupies(t1, i, j) && !(i == fx && j == fy) {
                    let n = choose|n: int| 0 <= n < t1.len() && (#[trigger] t1[n]).0 == i && t1[n].1 == j;
                    assert(t0[n] == t1[n]);
                }
            }
        }
        k = k + 1;
    }
    assert(food@.take(food@.len() as int) =~= food@);
    // Agent layer, drawn last so that agents stay visible on top of food.
    let mut k: usize = 0;
    while k < agents.len()
        invariant
            map.wf(),
            h == map.height,
            w == map.width,
            k <= agents@.len(),
            buffer@.len() == h,
            forall|j: int| 0 <= j < h ==> #[trigger] buffer@[j]@.len() == w,
            forall|j: int, i: int|
                0 <= j < h && 0 <= i < w ==> #[trigger] buffer@[j]@[i] == if occupies(
                    agents@.take(k as int),
                    i,
                    j,
                ) {
                    'A'
                } else if occupies(food@, i, j) {
                    'F'
                } else {
                    terrain_char(map.tile(i, j))
                },
        decreases agents@.len() - k,
    {
        let (ax, ay) = agents[k];
        if ax >= 0 && ay >= 0 && (ax as usize) < w && (ay as usize) < h {
            buffer[ay as usize][ax as usize] = 'A';
        }
        proof {
            assert forall|j: int, i: int| 0 <= j < h && 0 <= i < w implies #[trigger] buffer@[j]@[i]
                == if occupies(agents@.take(k + 1), i, j) {
                'A'
            } else if occupies(food@, i, j) {
                'F'
            } else {
                terrain_char(map.tile(i, j))
            } by {
                let t1 = agents@.take(k + 1);
                let t0 = agents@.take(k as int);
                assert(t1[k as int] == (ax, ay));
                if occupies(t0, i, j) {
                    let n = choose|n: int| 0 <= n < t0.len() && (#[trigger] t0[n]).0 == i && t0[n].1 == j;
                    assert(t1[n] == t0[n]);
                }
                if occupies(t1, i, j) && !(i == ax && j == ay) {
                    let n = choose|n: int| 0 <= n < t1.len() && (#[trigger] t1[n]).0 == i && t1[n].1 == j;
                    assert(t0[n] == t1[n]);
                }
            }
        }
        k = k + 1;
    }
    assert(agents@.take(agents@.len() as int) =~= agents@);
    // Lay the buffer out as text.
    let ghost rows = snapshot_rows(*map, food@, agents@);
    let mut ascii = String::new();
    let mut y: usize = 0;
    while y < h
        invariant
            map.wf(),
            h == map.height,
            w == map.width,
            y <= h,
            rows == snapshot_rows(*map, food@, agents@),
            buffer@.len() == h,
            forall|j: int| 0 <= j < h ==> #[trigger] buffer@[j]@ == rows[j],
            ascii@ == ascii_lines(rows.take(y as int)),
        decreases h - y,
    {
        let row = &buffer[y];
        let ghost before = ascii@;
        let mut x: usize = 0;
        while x < w
            invariant
                y < h,
                w == map.width,
                h == map.height,
                x <= w,
                row@ == rows[y as int],
                row@.len() == w,
                ascii@ == before + row@.take(x as int),
            decreases w - x,
        {
            push_char(&mut ascii, row[x]);
            assert(row@.take(x + 1) =~= row@.take(x as int).push(row@[x as int]));
            x = x + 1;
        }
        push_char(&mut ascii, '\n');
        proof {
            assert(row@.take(w as int) =~= row@);
            assert(rows.take(y + 1).drop_last() =~= rows.take(y as int));
        }
        y = y + 1;
    }
    proof {
        assert(rows.take(h as int) =~= rows);
    }
    ascii
}

/// Where an agent and food share a cell, the snapshot shows the agent.
pub proof fn lemma_agents_drawn_over_food(
    map: WorldMap,
    food: Seq<(i32, i32)>,
    agents: Seq<(i32, i32)>,
    x: int,
    y: int,
)
    requires
        occupies(agents, x, y),
        occupies(food, x, y),
    ensures
        snapshot_char(map, food, agents, x, y) == 'A',
{
}

/// With no food and no agents, the snapshot is the plain map rendering.
pub proof fn lemma_snapshot_without_entities(map: WorldMap)
    requires
        map.wf(),
    ensures
        ascii_lines(snapshot_rows(map, Seq::empty(), Seq::empty())) == map.ascii(),
{
    let rows = snapshot_rows(map, Seq::empty(), Seq::empty());
    assert forall|y: int| 0 <= y < map.height implies #[trigger] rows[y] == map.char_rows()[y] by {
        assert(rows[y] =~= map.char_rows()[y]);
    }
    assert(rows =~= map.char_rows());
}

} // verus!
