//! The breadth-first search for the nearest water tile.
use vstd::prelude::*;
use crate::map::{WorldMap, Terrain, manhattan};
use crate::search_order::{
    searched_before, search_parent, parent_direction, lemma_search_order, lemma_parent,
    lemma_parent_first, lemma_children_ordered,
};

verus! {

/// The in-bounds cells of a `w` by `h` grid.
pub open spec fn grid_cells(w: int, h: int) -> Set<(int, int)> {
    Set::new(|c: (int, int)| 0 <= c.0 < w && 0 <= c.1 < h)
}

/// The `k`-th neighbour of a cell, in the search order left, right, up, down.
pub open spec fn neighbor(c: (int, int), k: int) -> (int, int) {
    if k == 0 {
        (c.0 - 1, c.1)
    } else if k == 1 {
        (c.0 + 1, c.1)
    } else if k == 2 {
        (c.0, c.1 - 1)
    } else {
        (c.0, c.1 + 1)
    }
}

/// The cell of a search-queue entry `(x, y, distance)`.
pub open spec fn entry_cell(e: (i32, i32, i32)) -> (int, int) {
    (e.0 as int, e.1 as int)
}

/// Whether some entry of the queue is at cell `c`.
pub open spec fn queued(q: Seq<(i32, i32, i32)>, c: (int, int)) -> bool {
    exists|i: int| 0 <= i < q.len() && #[trigger] entry_cell(q[i]) == c
}

impl WorldMap {
    /// Whether some in-bounds cell is water.
    pub open spec fn has_water(&self) -> bool {
        exists|wx: int, wy: int| self.in_bounds(wx, wy) && self.tile(wx, wy) == Terrain::Water
    }

    /// `(wx, wy)` is a water cell at Manhattan distance `d` from `(x, y)`,
    /// and no water cell is closer.
    pub open spec fn is_nearest_water(&self, x: int, y: int, wx: int, wy: int, d: int) -> bool {
        &&& self.in_bounds(wx, wy)
        &&& self.tile(wx, wy) == Terrain::Water
        &&& d == manhattan(x, y, wx, wy)
        &&& forall|ox: int, oy: int|
            self.in_bounds(ox, oy) && #[trigger] self.tile(ox, oy) == Terrain::Water ==> d
                <= manhattan(x, y, ox, oy)
    }

    /// The cells already taken from the search queue: each is in bounds,
    /// seen, not water, and has all its in-bounds neighbours seen.
    pub open spec fn closed_cells(&self, vis: Set<(int, int)>, popped: Set<(int, int)>) -> bool {
        forall|c: (int, int)|
            #[trigger] popped.contains(c) ==> {
                &&& self.in_bounds(c.0, c.1)
                &&& vis.contains(c)
                &&& self.tile(c.0, c.1) != Terrain::Water
                &&& forall|k: int|
                    0 <= k < 4 && self.in_bounds(#[trigger] neighbor(c, k).0, neighbor(c, k).1)
                        ==> vis.contains(neighbor(c, k))
            }
    }

    /// Every seen cell has been taken from the queue or is still waiting in it.
    pub open spec fn seen_accounted(
        &self,
        vis: Set<(int, int)>,
        popped: Set<(int, int)>,
        q: Seq<(i32, i32, i32)>,
    ) -> bool {
        forall|c: (int, int)| #[trigger] vis.contains(c) ==> popped.contains(c) || queued(q, c)
    }
}
impl WorldMap {
    /// An agent standing on water finds water at distance zero: any nearest
    /// water cell for a start on water is at distance 0.
    pub proof fn lemma_nearest_water_on_water(&self, x: int, y: int, wx: int, wy: int, d: int)
        requires
            self.in_bounds(x, y),
            self.tile(x, y) == Terrain::Water,
            self.is_nearest_water(x, y, wx, wy, d),
        ensures
            d == 0,
            wx == x,
            wy == y,
    {
        assert(d <= manhattan(x, y, x, y));
    }
}

impl WorldMap {
    /// `(wx, wy)` is the water cell that the search from `(x, y)` reaches
    /// first, at distance `d`: every other water cell is searched after it.
    pub open spec fn is_first_water(&self, x: int, y: int, wx: int, wy: int, d: int) -> bool {
        &&& self.in_bounds(wx, wy)
        &&& self.tile(wx, wy) == Terrain::Water
        &&& d == manhattan(x, y, wx, wy)
        &&& forall|ox: int, oy: int|
            self.in_bounds(ox, oy) && #[trigger] self.tile(ox, oy) == Terrain::Water && (ox, oy) != (
            wx,
            wy,
        ) ==> searched_before(x, y, (wx, wy), (ox, oy))
    }

    /// The queued entries: in bounds, seen, at their distance from the
    /// start, and reached from their search parent (or the start itself
    /// before anything was taken).
    pub open spec fn queue_entries_valid(
        &self,
        sx: int,
        sy: int,
        vis: Set<(int, int)>,
        popped: Set<(int, int)>,
        q: Seq<(i32, i32, i32)>,
    ) -> bool {
        forall|i: int|
            0 <= i < q.len() ==> {
                &&& self.in_bounds(#[trigger] q[i].0 as int, q[i].1 as int)
                &&& vis.contains(entry_cell(q[i]))
                &&& q[i].2 as int == manhattan(sx, sy, q[i].0 as int, q[i].1 as int)
                &&& (entry_cell(q[i]) == (sx, sy) && popped =~= Set::<(int, int)>::empty()) || (
                entry_cell(q[i]) != (sx, sy) && popped.contains(search_parent(sx, sy, entry_cell(q[i]))))
            }
    }

    /// The queue holds its entries in search order.
    pub open spec fn queue_in_search_order(&self, sx: int, sy: int, q: Seq<(i32, i32, i32)>) -> bool {
        forall|i: int, j: int|
            0 <= i < j < q.len() ==> searched_before(sx, sy, #[trigger] entry_cell(q[i]), #[trigger] entry_cell(q[j]))
    }
}

impl WorldMap {
    /// The first water cell in search order is unique: the search result is
    /// determined by the map and the start.
    pub proof fn lemma_first_water_unique(&self, x: int, y: int, w1: (int, int), d1: int, w2: (int, int), d2: int)
        requires
            self.is_first_water(x, y, w1.0, w1.1, d1),
            self.is_first_water(x, y, w2.0, w2.1, d2),
        ensures
            w1 == w2,
            d1 == d2,
    {
        if w1 != w2 {
            assert(searched_before(x, y, w1, w2));
            assert(searched_before(x, y, w2, w1));
            lemma_search_order(x, y, w1, w2, w1);
        }
    }
}

/// Every in-bounds cell that the search reaches before `front` has been
/// taken from the queue, provided no queued entry comes before `front`.
proof fn lemma_searched_cells_taken(
    m: &WorldMap,
    sx: int,
    sy: int,
    vis: Set<(int, int)>,
    popped: Set<(int, int)>,
    q: Seq<(i32, i32, i32)>,
    front: (int, int),
    c: (int, int),
)
    requires
        m.in_bounds(sx, sy),
        vis.contains((sx, sy)),
        m.closed_cells(vis, popped),
        m.seen_accounted(vis, popped, q),
        forall|i: int| 0 <= i < q.len() ==> !searched_before(sx, sy, #[trigger] entry_cell(q[i]), front),
        m.in_bounds(c.0, c.1),
        searched_before(sx, sy, c, front),
    ensures
        popped.contains(c),
    decreases manhattan(sx, sy, c.0, c.1),
{
    if c != (sx, sy) {
        let p = search_parent(sx, sy, c);
        lemma_parent(sx, sy, c, m.width as int, m.height as int);
        lemma_search_order(sx, sy, p, c, front);
        lemma_searched_cells_taken(m, sx, sy, vis, popped, q, front, p);
        assert(neighbor(p, parent_direction(sx, sy, c)) == c);
        assert(vis.contains(c));
    }
    if !popped.contains(c) {
        assert(queued(q, c));
        let i = choose|i: int| 0 <= i < q.len() && #[trigger] entry_cell(q[i]) == c;
        assert(!searched_before(sx, sy, entry_cell(q[i]), front));
    }
}

/// The set of in-bounds cells of a grid is finite.
proof fn lemma_grid_cells_finite(w: int, h: int)
    requires
        0 <= w,
    ensures
        grid_cells(w, h).finite(),
    decreases h,
{
    if h <= 0 {
        assert(grid_cells(w, h) =~= Set::empty());
    } else {
        lemma_grid_cells_finite(w, h - 1);
        let row = vstd::set_lib::set_int_range(0, w).map(|x: int| (x, h - 1));
        vstd::set_lib::lemma_int_range(0, w);
        vstd::set_lib::set_int_range(0, w).lemma_map_finite(|x: int| (x, h - 1));
        assert forall|c: (int, int)| grid_cells(w, h).contains(c) implies #[trigger] grid_cells(w, h - 1).union(row).contains(c) by {
            if c.1 == h - 1 {
                assert(vstd::set_lib::set_int_range(0, w).contains(c.0));
                assert(row.contains((c.0, h - 1)));
            }
        }
        assert(grid_cells(w, h) =~= grid_cells(w, h - 1).union(row));
    }
}

impl WorldMap {
    /// Finds the nearest water tile to `(x, y)` by a breadth-first search
    /// over the grid, trying neighbours left, right, up, down. Returns
    /// `Some((wx, wy, distance))` for the first water tile found, else
    /// `None`. The tile found is at the least Manhattan distance of all
    /// water tiles; among equally near ones it is the first in search order
    /// (see `searched_before`).
    pub fn find_nearest_water(&self, x: i32, y: i32) -> (r: Option<(i32, i32, i32)>)
        requires
            self.wf(),
            self.width + self.height <= i32::MAX,
        ensures
            match r {
                None => !(self.in_bounds(x as int, y as int) && self.has_water()),
                Some((wx, wy, d)) => {
                    &&& self.in_bounds(x as int, y as int)
                    &&& self.is_nearest_water(x as int, y as int, wx as int, wy as int, d as int)
                    &&& self.is_first_water(x as int, y as int, wx as int, wy as int, d as int)
                },
            },
    {
        let w = self.width;
        let h = self.height;
        let ghost sx = x as int;
        let ghost sy = y as int;
        let ghost s = (sx, sy);
        let ghost sib = self.in_bounds(sx, sy);
        let ghost grid = grid_cells(w as int, h as int);
        proof {
            lemma_grid_cells_finite(w as int, h as int);
        }
        let mut visited: Vec<Vec<bool>> = Vec::new();
        let mut r: usize = 0;
        while r < h as usize
            invariant
                self.wf(),
                w == self.width,
                h == self.height,
                r <= h,
                visited@.len() == r,
                forall|j: int| 0 <= j < r ==> #[trigger] visited@[j]@.len() == w,
                forall|i: int, j: int| 0 <= j < r && 0 <= i < w ==> !#[trigger] visited@[j]@[i],
            decreases h - r,
        {
            let mut row: Vec<bool> = Vec::new();
            let mut c: usize = 0;
            while c < w as usize
                invariant
                    self.wf(),
                    w == self.width,
                    c <= w,
                    row@.len() == c,
                    forall|i: int| 0 <= i < c ==> !#[trigger] row@[i],
                decreases w - c,
            {
                row.push(false);
                c = c + 1;
            }
            visited.push(row);
            r = r + 1;
        }
        let mut queue: std::collections::VecDeque<(i32, i32, i32)> = std::collections::VecDeque::new();
        queue.push_back((x, y, 0));
        let ghost mut vis: Set<(int, int)> = Set::empty();
        let ghost mut popped: Set<(int, int)> = Set::empty();
        if x >= 0 && y >= 0 && x < w && y < h {
            visited[y as usize][x as usize] = true;
            proof {
                vis = vis.insert(s);
            }
        }
        proof {
            if sib {
                assert(entry_cell(queue@[0]) == s);
            }
        }
        while queue.len() > 0
            invariant
                self.wf(),
                w == self.width,
                h == self.height,
                w + h <= i32::MAX,
                sx == x,
                sy == y,
                s == (sx, sy),
                sib == self.in_bounds(sx, sy),
                grid == grid_cells(w as int, h as int),
                grid.finite(),
                visited@.len() == h,
                forall|j: int| 0 <= j < h ==> #[trigger] visited@[j]@.len() == w,
                forall|i: int, j: int|
                    #![trigger visited@[j]@[i]]
                    #![trigger vis.contains((i, j))]
                    0 <= i < w && 0 <= j < h ==> (visited@[j]@[i] <==> vis.contains((i, j))),
                vis.subset_of(grid),
                !sib ==> queue@.len() <= 1 && vis == Set::<(int, int)>::empty(),
                !sib && queue@.len() == 1 ==> queue@[0] == (x, y, 0i32),
                sib ==> vis.contains(s),
                sib ==> self.closed_cells(vis, popped),
                sib ==> self.seen_accounted(vis, popped, queue@),
                sib ==> self.queue_entries_valid(sx, sy, vis, popped, queue@),
                sib ==> self.queue_in_search_order(sx, sy, queue@),
                sib && queue@.len() > 0 ==> forall|c: (int, int)|
                    #[trigger] popped.contains(c) ==> searched_before(sx, sy, c, entry_cell(queue@[0])),
            decreases 2 * (grid.len() - vis.len()) + queue@.len(),
        {
            proof {
                vstd::set_lib::lemma_len_subset(vis, grid);
            }
            let ghost q0 = queue@;
            let ghost m0 = 2 * (grid.len() - vis.len()) + queue@.len();
            let (cx, cy, dist) = queue.pop_front().unwrap();
            if cx >= 0 && cy >= 0 && cx < w && cy < h {
                let ghost p = (cx as int, cy as int);
                assert(sib);
                assert(q0[0] == (cx, cy, dist));
                assert(entry_cell(q0[0]) == p);
                proof {
                    assert forall|i: int| 0 <= i < q0.len() implies !searched_before(sx, sy, #[trigger] entry_cell(q0[i]), p) by {
                        lemma_search_order(sx, sy, entry_cell(q0[i]), p, p);
                        if i > 0 {
                            assert(searched_before(sx, sy, entry_cell(q0[0]), entry_cell(q0[i])));
                        }
                    }
                    assert forall|cc: (int, int)|
                        self.in_bounds(cc.0, cc.1) && searched_before(sx, sy, cc, p) implies #[trigger] popped.contains(cc) by {
                        lemma_searched_cells_taken(self, sx, sy, vis, popped, q0, p, cc);
                    }
                }
                if let Terrain::Water = self.tiles[cy as usize][cx as usize] {
                    proof {
                        assert forall|ox: int, oy: int|
                            self.in_bounds(ox, oy) && #[trigger] self.tile(ox, oy) == Terrain::Water && (ox, oy) != p
                            implies searched_before(sx, sy, p, (ox, oy)) by {
                            lemma_search_order(sx, sy, p, (ox, oy), p);
                            if searched_before(sx, sy, (ox, oy), p) {
                                assert(popped.contains((ox, oy)));
                            }
                        }
                        assert forall|ox: int, oy: int|
                            self.in_bounds(ox, oy) && #[trigger] self.tile(ox, oy) == Terrain::Water implies dist
                                <= manhattan(sx, sy, ox, oy) by {
                            if (ox, oy) != p {
                                assert(searched_before(sx, sy, p, (ox, oy)));
                            }
                        }
                    }
                    return Some((cx, cy, dist));
                }
                let ghost old_popped = popped;
                proof {
                    popped = popped.insert(p);
                    vstd::set_lib::lemma_set_subset_finite(grid, vis);
                    assert forall|cc: (int, int)| #[trigger] vis.contains(cc) implies popped.contains(cc)
                        || queued(queue@, cc) by {
                        if !popped.contains(cc) {
                            let i = choose|i: int| 0 <= i < q0.len() && #[trigger] entry_cell(q0[i]) == cc;
                            assert(i != 0);
                            assert(entry_cell(queue@[i - 1]) == cc);
                        }
                    }
                    // What the remaining entries were reached from.
                    assert forall|i: int| 0 <= i < queue@.len() implies {
                        &&& entry_cell(#[trigger] queue@[i]) != s
                        &&& old_popped.contains(search_parent(sx, sy, entry_cell(queue@[i])))
                        &&& searched_before(sx, sy, p, entry_cell(queue@[i]))
                    } by {
                        assert(queue@[i] == q0[i + 1]);
                        assert(self.in_bounds(q0[i + 1].0 as int, q0[i + 1].1 as int));
                        assert(searched_before(sx, sy, entry_cell(q0[0]), entry_cell(q0[i + 1])));
                        if entry_cell(q0[i + 1]) == s {
                            assert(self.in_bounds(q0[0].0 as int, q0[0].1 as int));
                            lemma_search_order(sx, sy, p, s, p);
                            assert(p != s ==> searched_before(sx, sy, s, p));
                        }
                    }
                }
                let directions: [(i32, i32); 4] = [(-1, 0), (1, 0), (0, -1), (0, 1)];
                let mut k: usize = 0;
                while k < 4
                    invariant
                        self.wf(),
                        w == self.width,
                        h == self.height,
                        w + h <= i32::MAX,
                        sx == x,
                        sy == y,
                        s == (sx, sy),
                        sib,
                        self.in_bounds(sx, sy),
                        p == (cx as int, cy as int),
                        self.in_bounds(p.0, p.1),
                        dist as int == manhattan(sx, sy, p.0, p.1),
                        self.tile(p.0, p.1) != Terrain::Water,
                        directions@ == seq![(-1i32, 0i32), (1i32, 0i32), (0i32, -1i32), (0i32, 1i32)],
                        k <= 4,
                        grid == grid_cells(w as int, h as int),
                        grid.finite(),
                        visited@.len() == h,
                        forall|j: int| 0 <= j < h ==> #[trigger] visited@[j]@.len() == w,
                        forall|i: int, j: int|
                            #![trigger visited@[j]@[i]]
                            #![trigger vis.contains((i, j))]
                            0 <= i < w && 0 <= j < h ==> (visited@[j]@[i] <==> vis.contains((i, j))),
                        vis.subset_of(grid),
                        vis.finite(),
                        2 * (grid.len() - vis.len()) + queue@.len() < m0,
                        vis.contains(s),
                        popped == old_popped.insert(p),
                        vis.contains(p),
                        forall|cc: (int, int)|
                            self.in_bounds(cc.0, cc.1) && searched_before(sx, sy, cc, p) ==> #[trigger] old_popped.contains(cc),
                        forall|cc: (int, int)| #[trigger] old_popped.contains(cc) ==> searched_before(sx, sy, cc, p),
                        forall|j: int|
                            0 <= j < k && self.in_bounds(#[trigger] neighbor(p, j).0, neighbor(p, j).1)
                                ==> vis.contains(neighbor(p, j)),
                        forall|cc: (int, int)|
                            #[trigger] old_popped.contains(cc) ==> {
                                &&& self.in_bounds(cc.0, cc.1)
                                &&& vis.contains(cc)
                                &&& self.tile(cc.0, cc.1) != Terrain::Water
                                &&& forall|kk: int|
                                    0 <= kk < 4 && self.in_bounds(
                                        #[trigger] neighbor(cc, kk).0,
                                        neighbor(cc, kk).1,
                                    ) ==> vis.contains(neighbor(cc, kk))
                            },
                        self.seen_accounted(vis, popped, queue@),
                        forall|i: int|
                            0 <= i < queue@.len() ==> {
                                &&& self.in_bounds(#[trigger] queue@[i].0 as int, queue@[i].1 as int)
                                &&& vis.contains(entry_cell(queue@[i]))
                                &&& queue@[i].2 as int == manhattan(sx, sy, queue@[i].0 as int, queue@[i].1 as int)
                                &&& entry_cell(queue@[i]) != s
                                &&& popped.contains(search_parent(sx, sy, entry_cell(queue@[i])))
                                &&& searched_before(sx, sy, p, entry_cell(queue@[i]))
                                &&& (search_parent(sx, sy, entry_cell(queue@[i])) == p ==> parent_direction(
                                    sx,
                                    sy,
                                    entry_cell(queue@[i]),
                                ) < k)
                            },
                        self.queue_in_search_order(sx, sy, queue@),
                    decreases 4 - k,
                {
                    let (dx, dy) = directions[k];
                    let nx = cx + dx;
                    let ny = cy + dy;
                    assert((nx as int, ny as int) == neighbor(p, k as int));
                    if nx >= 0 && ny >= 0 && nx < w && ny < h {
                        if !visited[ny as usize][nx as usize] {
                            let ghost c = (nx as int, ny as int);
                            assert(!vis.contains(c));
                            // The new cell is one step farther than `p`, and `p` is its parent.
                            let ghost back = if k == 0 { 1int } else if k == 1 { 0int } else if k == 2 { 3int } else { 2int };
                            assert(neighbor(c, back) == p);
                            assert(manhattan(sx, sy, c.0, c.1) == dist + 1) by {
                                if manhattan(sx, sy, c.0, c.1) < dist {
                                    assert(searched_before(sx, sy, c, p));
                                    assert(old_popped.contains(c));
                                }
                            }
                            assert(c != s);
                            proof {
                                lemma_parent(sx, sy, c, w as int, h as int);
                                lemma_parent_first(sx, sy, c, back);
                                if search_parent(sx, sy, c) != p {
                                    assert(old_popped.contains(search_parent(sx, sy, c)));
                                    assert(neighbor(search_parent(sx, sy, c), parent_direction(sx, sy, c)) == c);
                                    assert(vis.contains(c));
                                }
                                assert(parent_direction(sx, sy, c) == k);
                            }
                            let ghost qb = queue@;
                            queue.push_back((nx, ny, dist + 1));
                            visited[ny as usize][nx as usize] = true;
                            proof {
                                vis = vis.insert(c);
                                assert(entry_cell(queue@[queue@.len() - 1]) == c);
                                assert forall|cc: (int, int)| #[trigger] vis.contains(cc) implies popped.contains(cc)
                                    || queued(queue@, cc) by {
                                    if cc != c && !popped.contains(cc) {
                                        assert(queued(qb, cc));
                                        let i = choose|i: int| 0 <= i < qb.len() && #[trigger] entry_cell(qb[i]) == cc;
                                        assert(entry_cell(queue@[i]) == cc);
                                    }
                                }
                                assert(searched_before(sx, sy, p, c));
                                assert forall|i: int, j: int|
                                    0 <= i < j < queue@.len() implies searched_before(sx, sy, #[trigger] entry_cell(queue@[i]), #[trigger] entry_cell(queue@[j])) by {
                                    assert(queue@[i] == qb[i]);
                                    if j == queue@.len() - 1 {
                                        let qi = entry_cell(qb[i]);
                                        assert(self.in_bounds(qb[i].0 as int, qb[i].1 as int));
                                        lemma_parent(sx, sy, qi, w as int, h as int);
                                        if manhattan(sx, sy, qi.0, qi.1) == manhattan(sx, sy, c.0, c.1) {
                                            if search_parent(sx, sy, qi) != p {
                                                assert(old_popped.contains(search_parent(sx, sy, qi)));
                                            }
                                            lemma_children_ordered(sx, sy, qi, c);
                                        } else {
                                            assert(old_popped.contains(search_parent(sx, sy, qi)) || search_parent(sx, sy, qi) == p);
                                        }
                                    } else {
                                        assert(queue@[j] == qb[j]);
                                    }
                                }
                            }
                        }
                    }
                    k = k + 1;
                }
                proof {
                    if queue@.len() > 0 {
                        assert(self.in_bounds(queue@[0].0 as int, queue@[0].1 as int));
                        assert forall|cc: (int, int)| #[trigger] popped.contains(cc) implies searched_before(
                            sx,
                            sy,
                            cc,
                            entry_cell(queue@[0]),
                        ) by {
                            if cc != p {
                                lemma_search_order(sx, sy, cc, p, entry_cell(queue@[0]));
                            }
                        }
                    }
                }
            }
            proof {
                vstd::set_lib::lemma_len_subset(vis, grid);
            }
        }
        proof {
            if sib {
                let far = (sx + w + h, sy);
                assert forall|ox: int, oy: int| self.in_bounds(ox, oy) implies #[trigger] self.tile(ox, oy)
                    != Terrain::Water by {
                    lemma_searched_cells_taken(self, sx, sy, vis, popped, queue@, far, (ox, oy));
                }
            }
        }
        None
    }
}

} // verus!
