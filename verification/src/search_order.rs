//! The order in which the nearest-water search reaches the cells of the map.
use vstd::prelude::*;
use crate::map::manhattan;
use crate::nearest_water::neighbor;

verus! {

pub open spec fn abs_int(v: int) -> int {
    if v < 0 {
        -v
    } else {
        v
    }
}

/// Columns left of the start come first, then columns right of it, then the
/// start's own column.
pub open spec fn column_group(dx: int) -> int {
    if dx < 0 {
        0
    } else if dx > 0 {
        1
    } else {
        2
    }
}

/// Whether the search from `(sx, sy)` reaches cell `a` before cell `b`:
/// nearer cells first; among equally near cells, those left of the start,
/// then those right of it, then those in its column; farther columns
/// before nearer ones; within a column, upper cells before lower ones.
pub open spec fn searched_before(sx: int, sy: int, a: (int, int), b: (int, int)) -> bool {
    let da = manhattan(sx, sy, a.0, a.1);
    let db = manhattan(sx, sy, b.0, b.1);
    let xa = a.0 - sx;
    let xb = b.0 - sx;
    ||| da < db
    ||| da == db && column_group(xa) < column_group(xb)
    ||| da == db && column_group(xa) == column_group(xb) && abs_int(xa) > abs_int(xb)
    ||| da == db && column_group(xa) == column_group(xb) && abs_int(xa) == abs_int(xb) && a.1 < b.1
}

/// The cell from which the search first reaches `c`: one step towards the
/// start, vertically when `c` is not in the start's row.
pub open spec fn search_parent(sx: int, sy: int, c: (int, int)) -> (int, int) {
    if c.1 > sy {
        (c.0, c.1 - 1)
    } else if c.1 < sy {
        (c.0, c.1 + 1)
    } else if c.0 > sx {
        (c.0 - 1, c.1)
    } else {
        (c.0 + 1, c.1)
    }
}

/// The direction in which `search_parent(c)` reaches `c`.
pub open spec fn parent_direction(sx: int, sy: int, c: (int, int)) -> int {
    if c.1 > sy {
        3
    } else if c.1 < sy {
        2
    } else if c.0 > sx {
        1
    } else {
        0
    }
}

/// The search order is a strict total order on cells.
pub proof fn lemma_search_order(sx: int, sy: int, a: (int, int), b: (int, int), c: (int, int))
    ensures
        !searched_before(sx, sy, a, a),
        searched_before(sx, sy, a, b) ==> !searched_before(sx, sy, b, a),
        searched_before(sx, sy, a, b) && searched_before(sx, sy, b, c) ==> searched_before(sx, sy, a, c),
        a != b ==> searched_before(sx, sy, a, b) || searched_before(sx, sy, b, a),
{
}

/// The parent of a cell other than the start: in bounds of any rectangle
/// holding both, one step nearer to the start, searched earlier, and
/// reaching the cell in direction `parent_direction`.
pub proof fn lemma_parent(sx: int, sy: int, c: (int, int), w: int, h: int)
    requires
        c != (sx, sy),
        0 <= sx < w,
        0 <= sy < h,
        0 <= c.0 < w,
        0 <= c.1 < h,
    ensures
        0 <= search_parent(sx, sy, c).0 < w,
        0 <= search_parent(sx, sy, c).1 < h,
        manhattan(sx, sy, search_parent(sx, sy, c).0, search_parent(sx, sy, c).1) == manhattan(
            sx,
            sy,
            c.0,
            c.1,
        ) - 1,
        searched_before(sx, sy, search_parent(sx, sy, c), c),
        0 <= parent_direction(sx, sy, c) < 4,
        neighbor(search_parent(sx, sy, c), parent_direction(sx, sy, c)) == c,
{
}

/// Of the neighbours of a cell one step nearer to the start, the parent is
/// searched first.
pub proof fn lemma_parent_first(sx: int, sy: int, c: (int, int), k: int)
    requires
        c != (sx, sy),
        0 <= k < 4,
        manhattan(sx, sy, neighbor(c, k).0, neighbor(c, k).1) == manhattan(sx, sy, c.0, c.1) - 1,
    ensures
        neighbor(c, k) == search_parent(sx, sy, c) || searched_before(
            sx,
            sy,
            search_parent(sx, sy, c),
            neighbor(c, k),
        ),
{
}

/// Children keep the order of their parents, and children of one parent
/// are ordered as the directions in which it reaches them.
pub proof fn lemma_children_ordered(sx: int, sy: int, c1: (int, int), c2: (int, int))
    requires
        c1 != (sx, sy),
        c2 != (sx, sy),
        manhattan(sx, sy, c1.0, c1.1) == manhattan(sx, sy, c2.0, c2.1),
        searched_before(sx, sy, search_parent(sx, sy, c1), search_parent(sx, sy, c2)) || (
        search_parent(sx, sy, c1) == search_parent(sx, sy, c2) && parent_direction(sx, sy, c1)
            < parent_direction(sx, sy, c2)),
    ensures
        searched_before(sx, sy, c1, c2),
{
}

} // verus!
