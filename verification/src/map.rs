//! The terrain grid: terrain kinds, tiles, passability and ASCII rendering.
use vstd::prelude::*;
use crate::agent::components::AgentState;
use crate::terrain::TerrainType;
use crate::text::push_char;

verus! {

/// One cell of the map.
#[derive(Debug, Clone, Copy, PartialEq, Eq, Structural)]
pub enum Terrain {
    Grass,
    Forest,
    Water,
    Mountain,
}

/// The character that stands for a terrain in ASCII renderings.
pub open spec fn terrain_char(t: Terrain) -> char {
    match t {
        Terrain::Grass => '.',
        Terrain::Forest => 'T',
        Terrain::Water => '~',
        Terrain::Mountain => '^',
    }
}

/// The map terrain that a generated terrain type becomes: dirt and beach
/// count as grass.
pub open spec fn terrain_of_type(tt: TerrainType) -> Terrain {
    match tt {
        TerrainType::Water => Terrain::Water,
        TerrainType::Dirt => Terrain::Grass,
        TerrainType::Grass => Terrain::Grass,
        TerrainType::Forest => Terrain::Forest,
        TerrainType::Mountain => Terrain::Mountain,
        TerrainType::Beach => Terrain::Grass,
    }
}

impl Terrain {
    /// The ASCII character of this terrain.
    pub fn to_char(&self) -> (c: char)
        ensures
            c == terrain_char(*self),
    {
        match self {
            Terrain::Grass => '.',
            Terrain::Forest => 'T',
            Terrain::Water => '~',
            Terrain::Mountain => '^',
        }
    }
}

impl From<TerrainType> for Terrain {
    fn from(tt: TerrainType) -> (t: Terrain) {
        match tt {
            TerrainType::Water => Terrain::Water,
            TerrainType::Dirt => Terrain::Grass,
            TerrainType::Grass => Terrain::Grass,
            TerrainType::Forest => Terrain::Forest,
            TerrainType::Mountain => Terrain::Mountain,
            TerrainType::Beach => Terrain::Grass,
        }
    }
}

impl vstd::std_specs::convert::FromSpecImpl<TerrainType> for Terrain {
    open spec fn obeys_from_spec() -> bool {
        true
    }

    open spec fn from_spec(v: TerrainType) -> Terrain {
        terrain_of_type(v)
    }
}

/// Whether a cell holds food.
#[derive(Debug, Clone, Copy, PartialEq, Eq, Structural)]
pub enum Food {
    Absent,
    Present,
}

/// A rectangular grid of terrain: `tiles[y][x]` is the cell at column `x`
/// of row `y`.
#[derive(Debug, Clone)]
pub struct WorldMap {
    pub width: i32,
    pub height: i32,
    pub tiles: Vec<Vec<Terrain>>,
}

/// The characters of one row of terrain.
pub open spec fn row_chars(row: Seq<Terrain>) -> Seq<char> {
    row.map_values(|t: Terrain| terrain_char(t))
}

/// Rows of characters laid out as lines: each row followed by a newline.
pub open spec fn ascii_lines(rows: Seq<Seq<char>>) -> Seq<char>
    decreases rows.len(),
{
    if rows.len() == 0 {
        Seq::empty()
    } else {
        ascii_lines(rows.drop_last()) + rows.last().push('\n')
    }
}

/// The Manhattan distance between two cells.
pub open spec fn manhattan(x1: int, y1: int, x2: int, y2: int) -> int {
    (if x1 >= x2 { x1 - x2 } else { x2 - x1 }) + (if y1 >= y2 { y1 - y2 } else { y2 - y1 })
}

/// Whether a terrain can be entered by an agent, given whether it swims.
pub open spec fn terrain_passable(t: Terrain, swimming: bool) -> bool {
    match t {
        Terrain::Water => swimming,
        Terrain::Mountain => false,
        _ => true,
    }
}

/// Whether an optional agent state is `Swimming`.
pub open spec fn is_swimming(state: Option<&AgentState>) -> bool {
    state matches Some(s) && *s == AgentState::Swimming
}

impl WorldMap {
    /// The grid holds `height` rows of `width` cells each.
    pub open spec fn wf(&self) -> bool {
        &&& 0 <= self.width
        &&& 0 <= self.height
        &&& self.tiles@.len() == self.height
        &&& forall|y: int| 0 <= y < self.height ==> #[trigger] self.tiles@[y]@.len() == self.width
    }

    pub open spec fn in_bounds(&self, x: int, y: int) -> bool {
        0 <= x < self.width && 0 <= y < self.height
    }

    /// The terrain at column `x` of row `y`.
    pub open spec fn tile(&self, x: int, y: int) -> Terrain {
        self.tiles@[y]@[x]
    }

    /// The rows of the grid as characters.
    pub open spec fn char_rows(&self) -> Seq<Seq<char>> {
        self.tiles@.map_values(|row: Vec<Terrain>| row_chars(row@))
    }

    /// The ASCII picture of the map: one line per row.
    pub open spec fn ascii(&self) -> Seq<char> {
        ascii_lines(self.char_rows())
    }

    /// Checks if a tile at `(x, y)` is passable for an agent in the given
    /// state: water only for a swimming agent, mountains never, all other
    /// terrain always. Cells outside the map are never passable.
    pub fn is_passable(&self, x: i32, y: i32, agent_state: Option<&AgentState>) -> (r: bool)
        requires
            self.wf(),
        ensures
            r == (self.in_bounds(x as int, y as int) && terrain_passable(
                self.tile(x as int, y as int),
                is_swimming(agent_state),
            )),
    {
        if x < 0 || y < 0 || x >= self.width || y >= self.height {
            return false;
        }
        match self.tiles[y as usize][x as usize] {
            Terrain::Water => {
                if let Some(AgentState::Swimming) = agent_state {
                    true
                } else {
                    false
                }
            },
            Terrain::Mountain => false,
            _ => true,
        }
    }

    /// Whether the rows of the map match its dimensions.
    pub fn is_well_formed(&self) -> (ok: bool)
        ensures
            ok == self.wf(),
    {
        if self.width < 0 || self.height < 0 || self.tiles.len() != self.height as usize {
            return false;
        }
        let mut y: usize = 0;
        while y < self.tiles.len()
            invariant
                0 <= self.width,
                self.tiles@.len() == self.height,
                y <= self.tiles@.len(),
                forall|j: int| 0 <= j < y ==> #[trigger] self.tiles@[j]@.len() == self.width,
            decreases self.tiles.len() - y,
        {
            if self.tiles[y].len() != self.width as usize {
                return false;
            }
            y = y + 1;
        }
        true
    }

    /// Renders the map as ASCII, one line per row and one character per
    /// cell, without agents.
    pub fn render_ascii(&self) -> (ascii: String)
        requires
            self.wf(),
        ensures
            ascii@ == self.ascii(),
    {
        let mut ascii = String::new();
        let h = self.height as usize;
        let w = self.width as usize;
        let ghost rows = self.char_rows();
        let mut y: usize = 0;
        while y < h
            invariant
                self.wf(),
                h == self.height,
                w == self.width,
                y <= h,
                rows == self.char_rows(),
                ascii@ == ascii_lines(rows.take(y as int)),
            decreases h - y,
        {
            let row = &self.tiles[y];
            let ghost before = ascii@;
            let mut x: usize = 0;
            while x < w
                invariant
                    self.wf(),
                    y < h,
                    h == self.height,
                    w == self.width,
                    x <= w,
                    row@ == self.tiles@[y as int]@,
                    ascii@ == before + row_chars(row@).take(x as int),
                decreases w - x,
            {
                let c = row[x].to_char();
                push_char(&mut ascii, c);
                assert(row_chars(row@).take(x + 1) =~= row_chars(row@).take(x as int).push(c));
                x = x + 1;
            }
            push_char(&mut ascii, '\n');
            proof {
                assert(row_chars(row@).take(w as int) =~= row_chars(row@));
                assert(rows.take(y + 1).drop_last() =~= rows.take(y as int));
                assert(rows[y as int] == row_chars(row@));
            }
            y = y + 1;
        }
        proof {
            assert(rows.take(h as int) =~= rows);
        }
        ascii
    }
}


/// Layout of `ascii_lines`: with rows of `w` characters each, the picture
/// has `w + 1` characters per row, the character of column `x` of row `y`
/// stands at `y * (w + 1) + x` and each row ends in a newline.
pub proof fn lemma_ascii_layout(rows: Seq<Seq<char>>, w: int)
    requires
        0 <= w,
        forall|y: int| 0 <= y < rows.len() ==> #[trigger] rows[y].len() == w,
    ensures
        ascii_lines(rows).len() == rows.len() * (w + 1),
        forall|y: int, x: int|
            0 <= y < rows.len() && 0 <= x < w ==> #[trigger] ascii_lines(rows)[y * (w + 1) + x]
                == rows[y][x],
        forall|y: int| 0 <= y < rows.len() ==> #[trigger] ascii_lines(rows)[y * (w + 1) + w] == '\n',
    decreases rows.len(),
{
    if rows.len() > 0 {
        let init = rows.drop_last();
        let n = rows.len() as int;
        lemma_ascii_layout(init, w);
        assert((n - 1) * (w + 1) + (w + 1) == n * (w + 1)) by (nonlinear_arith);
        assert forall|y: int, x: int|
            0 <= y < rows.len() && 0 <= x < w implies #[trigger] ascii_lines(rows)[y * (w + 1) + x]
                == rows[y][x] by {
            if y < n - 1 {
                assert(y * (w + 1) + x < (n - 1) * (w + 1)) by (nonlinear_arith)
                    requires
                        0 <= y < n - 1,
                        0 <= x < w,
                ;
                assert(init[y] == rows[y]);
            } else {
                assert(y * (w + 1) + x - (n - 1) * (w + 1) == x) by (nonlinear_arith)
                    requires
                        y == n - 1,
                ;
            }
        }
        assert forall|y: int| 0 <= y < rows.len() implies #[trigger] ascii_lines(rows)[y * (w + 1)
            + w] == '\n' by {
            if y < n - 1 {
                assert(y * (w + 1) + w < (n - 1) * (w + 1)) by (nonlinear_arith)
                    requires
                        0 <= y < n - 1,
                        0 <= w,
                ;
            } else {
                assert(y * (w + 1) + w - (n - 1) * (w + 1) == w) by (nonlinear_arith)
                    requires
                        y == n - 1,
                ;
            }
        }
    }
}

impl WorldMap {
    /// The ASCII rendering of a well-formed map has `height` lines of
    /// `width + 1` characters: the character of the tile at `(x, y)` stands
    /// at `y * (width + 1) + x`, and every line ends in a newline.
    pub proof fn lemma_render_layout(&self)
        requires
            self.wf(),
        ensures
            self.ascii().len() == self.height * (self.width + 1),
            forall|x: int, y: int|
                self.in_bounds(x, y) ==> #[trigger] self.ascii()[y * (self.width + 1) + x]
                    == terrain_char(self.tile(x, y)),
            forall|y: int|
                0 <= y < self.height ==> #[trigger] self.ascii()[y * (self.width + 1) + self.width]
                    == '\n',
    {
        let rows = self.char_rows();
        lemma_ascii_layout(rows, self.width as int);
        assert forall|x: int, y: int| self.in_bounds(x, y) implies #[trigger] self.ascii()[y * (
        self.width + 1) + x] == terrain_char(self.tile(x, y)) by {
            assert(rows[y][x] == terrain_char(self.tile(x, y)));
        }
    }

    /// Builds a map from a generated grid of terrain types, converting each
    /// cell with `Terrain::from`.
    pub fn from_terrain_types(width: i32, height: i32, grid: Vec<Vec<TerrainType>>) -> (m: WorldMap)
        ensures
            m.width == width,
            m.height == height,
            m.tiles@.len() == grid@.len(),
            forall|y: int| 0 <= y < grid@.len() ==> #[trigger] m.tiles@[y]@.len() == grid@[y]@.len(),
            forall|y: int, x: int|
                0 <= y < grid@.len() && 0 <= x < grid@[y]@.len() ==> #[trigger] m.tiles@[y]@[x]
                    == terrain_of_type(grid@[y]@[x]),
            0 <= width && 0 <= height && grid@.len() == height && (forall|y: int|
                0 <= y < height ==> #[trigger] grid@[y]@.len() == width) ==> m.wf(),
    {
        let mut tiles: Vec<Vec<Terrain>> = Vec::new();
        let mut y: usize = 0;
        while y < grid.len()
            invariant
                y <= grid@.len(),
                tiles@.len() == y,
                forall|j: int| 0 <= j < y ==> #[trigger] tiles@[j]@.len() == grid@[j]@.len(),
                forall|j: int, i: int|
                    0 <= j < y && 0 <= i < grid@[j]@.len() ==> #[trigger] tiles@[j]@[i]
                        == terrain_of_type(grid@[j]@[i]),
            decreases grid@.len() - y,
        {
            let src = &grid[y];
            let mut row: Vec<Terrain> = Vec::new();
            let mut x: usize = 0;
            while x < src.len()
                invariant
                    x <= src@.len(),
                    row@.len() == x,
                    forall|i: int| 0 <= i < x ==> #[trigger] row@[i] == terrain_of_type(src@[i]),
                decreases src@.len() - x,
            {
                row.push(Terrain::from(src[x]));
                x = x + 1;
            }
            tiles.push(row);
            y = y + 1;
        }
        WorldMap { width, height, tiles }
    }
}

} // verus!
