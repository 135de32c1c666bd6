//! Chunks: square tiles of the world, `CHUNK_SIZE` cells a side, each cell a
//! terrain and perhaps a block. A world coordinate belongs to the chunk
//! `floor(x / CHUNK_SIZE)`, at the cell `x mod CHUNK_SIZE` within it.
use vstd::prelude::*;
use crate::blocks::{BlockKind, Rock, Sticks, Stones, Tree, ORE_LIFE, FRAIL_LIFE, TREE_LIFE, RUBBLE_MAX_LIFE};
use crate::random::{between, chance};

verus! {

pub const CHUNK_SIZE: i64 = 16;
/// `CHUNK_SIZE`, as an index.
pub const CHUNK_SIDE: usize = 16;
/// Cells in a chunk.
pub const CHUNK_CELLS: usize = 256;

/// Noise at or above this is rock.
pub const ROCK_LEVEL: i64 = 40;
/// Noise at or above this is bare stone.
pub const STONE_LEVEL: i64 = 30;
/// Noise at or above this is grass that may carry a decoration.
pub const MEADOW_LEVEL: i64 = 10;
/// Noise at or above this is bare grass.
pub const GRASS_LEVEL: i64 = 0;
/// Noise at or above this is shallow water; below it, deep water.
pub const WATER_LEVEL: i64 = -25;

/// One meadow cell in `TREE_ODDS` grows a tree.
pub const TREE_ODDS: u32 = 15;
/// Of the rest, one in `RUBBLE_ODDS` holds rubble.
pub const RUBBLE_ODDS: u32 = 100;
/// Of the rest, one in `STICKS_ODDS` holds sticks.
pub const STICKS_ODDS: u32 = 100;

#[derive(Clone, Copy, Debug, PartialEq, Eq, Structural)]
pub enum Terrain {
    DeepWater,
    Water,
    Grass,
    Stone,
}

pub type Cell = (Terrain, Option<BlockKind>);

/// A chunk: its column, its row, and its cells, the cell `(i, j)` at
/// `i * CHUNK_SIZE + j`.
pub struct Chunk(pub i64, pub i64, pub Vec<Cell>);

/// The chunk that holds world coordinate `x`.
pub open spec fn chunk_of(x: int) -> int {
    x / (CHUNK_SIZE as int)
}

/// The cell within its chunk of world coordinate `x`.
pub open spec fn cell_of(x: int) -> int {
    x % (CHUNK_SIZE as int)
}

/// The position of cell `(i, j)` in a chunk's cells.
pub open spec fn flat(i: int, j: int) -> int {
    i * (CHUNK_SIZE as int) + j
}

/// The terrain at a noise level.
pub open spec fn terrain_at(level: int) -> Terrain {
    if level >= STONE_LEVEL {
        Terrain::Stone
    } else if level >= GRASS_LEVEL {
        Terrain::Grass
    } else if level >= WATER_LEVEL {
        Terrain::Water
    } else {
        Terrain::DeepWater
    }
}

/// Whether a level is meadow, the band where decorations grow.
pub open spec fn is_meadow(level: int) -> bool {
    MEADOW_LEVEL <= level < STONE_LEVEL
}

/// The cell at a noise level, with `decoration` on it if it is meadow.
pub open spec fn cell_at(level: int, decoration: Option<BlockKind>) -> Cell {
    if level >= ROCK_LEVEL {
        (Terrain::Stone, Some(BlockKind::Rock(Rock { life: ORE_LIFE })))
    } else if is_meadow(level) {
        (Terrain::Grass, decoration)
    } else {
        (terrain_at(level), None)
    }
}

/// The decorations that can grow on a meadow cell.
pub open spec fn is_decoration(d: Option<BlockKind>) -> bool {
    match d {
        None => true,
        Some(BlockKind::Tree(t)) => t.life == TREE_LIFE,
        Some(BlockKind::Stones(s)) => 1 <= s.life <= RUBBLE_MAX_LIFE,
        Some(BlockKind::Sticks(s)) => s.life == FRAIL_LIFE,
        _ => false,
    }
}

/// The rank of a terrain in the order of its variants.
pub open spec fn rank(t: Terrain) -> int {
    match t {
        Terrain::DeepWater => 0,
        Terrain::Water => 1,
        Terrain::Grass => 2,
        Terrain::Stone => 3,
    }
}

/// How many of `cells` have terrain `t`.
pub open spec fn count_terrain(cells: Seq<Cell>, t: Terrain) -> nat
    decreases cells.len(),
{
    if cells.len() == 0 {
        0
    } else {
        count_terrain(cells.drop_last(), t) + if cells.last().0 == t {
            1nat
        } else {
            0nat
        }
    }
}

/// The world coordinate `x` splits into a chunk and a cell in `0..CHUNK_SIZE`
/// that together give `x` back, and every chunk and cell is the split of
/// exactly one coordinate.
pub proof fn lemma_cell_split(x: int, y: int, c: int, i: int)
    requires
        0 <= i < CHUNK_SIZE,
    ensures
        0 <= cell_of(x) < CHUNK_SIZE,
        chunk_of(x) * CHUNK_SIZE + cell_of(x) == x,
        (chunk_of(x) == chunk_of(y) && cell_of(x) == cell_of(y)) ==> x == y,
        chunk_of(c * CHUNK_SIZE + i) == c,
        cell_of(c * CHUNK_SIZE + i) == i,
{
    assert(chunk_of(c * CHUNK_SIZE + i) == c && cell_of(c * CHUNK_SIZE + i) == i) by {
        vstd::arithmetic::div_mod::lemma_fundamental_div_mod_converse(c * 16 + i, 16, c, i);
    }
    assert(chunk_of(x) * CHUNK_SIZE + cell_of(x) == x) by {
        vstd::arithmetic::div_mod::lemma_fundamental_div_mod(x, 16);
    }
    assert(chunk_of(y) * CHUNK_SIZE + cell_of(y) == y) by {
        vstd::arithmetic::div_mod::lemma_fundamental_div_mod(y, 16);
    }
}

/// The chunk that holds world coordinate `x`: `floor(x / CHUNK_SIZE)`, also
/// for negative `x`.
pub fn chunk_coord(x: i64) -> (r: i64)
    ensures
        r as int == chunk_of(x as int),
{
    match x.checked_div_euclid(CHUNK_SIZE) {
        Some(c) => c,
        None => 0,
    }
}

/// The cell within its chunk of world coordinate `x`, in `0..CHUNK_SIZE`.
pub fn cell_index(x: i64) -> (r: usize)
    ensures
        r as int == cell_of(x as int),
        r < CHUNK_SIZE,
{
    match x.checked_rem_euclid(CHUNK_SIZE) {
        Some(c) => c as usize,
        None => 0,
    }
}

/// The cell that a noise level gives, with `decoration` on it if it is
/// meadow.
pub fn cell_for(level: i64, decoration: Option<BlockKind>) -> (r: Cell)
    ensures
        r == cell_at(level as int, decoration),
{
    if level >= ROCK_LEVEL {
        (Terrain::Stone, Some(Rock::generate()))
    } else if level >= STONE_LEVEL {
        (Terrain::Stone, None)
    } else if level >= MEADOW_LEVEL {
        (Terrain::Grass, decoration)
    } else if level >= GRASS_LEVEL {
        (Terrain::Grass, None)
    } else if level >= WATER_LEVEL {
        (Terrain::Water, None)
    } else {
        (Terrain::DeepWater, None)
    }
}

/// The decoration that the draws of a meadow cell give, the first that
/// came up winning: a tree, else rubble with `rubble_life`, else sticks,
/// else nothing.
pub open spec fn decoration(tree: bool, rubble: bool, sticks: bool, rubble_life: u32) -> Option<BlockKind> {
    if tree {
        Some(BlockKind::Tree(Tree { life: TREE_LIFE }))
    } else if rubble {
        Some(BlockKind::Stones(Stones { life: rubble_life }))
    } else if sticks {
        Some(BlockKind::Sticks(Sticks { life: FRAIL_LIFE }))
    } else {
        None
    }
}

/// The decoration for the given outcomes of a meadow cell's draws.
pub fn decoration_for(tree: bool, rubble: bool, sticks: bool, rubble_life: u32) -> (r: Option<BlockKind>)
    ensures
        r == decoration(tree, rubble, sticks, rubble_life),
{
    if tree {
        Some(Tree::generate())
    } else if rubble {
        Some(BlockKind::Stones(Stones { life: rubble_life }))
    } else if sticks {
        Some(Sticks::generate())
    } else {
        None
    }
}

/// The odds of the draws of a meadow cell, as (numerator, denominator): a
/// tree, rubble, sticks, each drawn only when the ones before failed.
pub fn decoration_odds() -> (r: ((u32, u32), (u32, u32), (u32, u32)))
    ensures
        r == ((1u32, TREE_ODDS), (1u32, RUBBLE_ODDS), (1u32, STICKS_ODDS)),
{
    ((1, TREE_ODDS), (1, RUBBLE_ODDS), (1, STICKS_ODDS))
}

/// Draws the decoration of a meadow cell: a tree one time in `TREE_ODDS`,
/// else rubble one time in `RUBBLE_ODDS` (its life drawn uniformly from
/// `Stones::life_range`), else sticks one time in `STICKS_ODDS`, else
/// nothing. A draw is made only when the ones before it failed.
pub fn roll_decoration() -> (r: Option<BlockKind>)
    ensures
        exists|tree: bool, rubble: bool, sticks: bool, life: u32|
            1 <= life <= RUBBLE_MAX_LIFE && r == decoration(tree, rubble, sticks, life),
        is_decoration(r),
{
    let (tree_odds, rubble_odds, sticks_odds) = decoration_odds();
    let tree = chance(tree_odds.0, tree_odds.1);
    let rubble = !tree && chance(rubble_odds.0, rubble_odds.1);
    let sticks = !tree && !rubble && chance(sticks_odds.0, sticks_odds.1);
    let life: u32 = if rubble {
        let (lo, hi) = Stones::life_range();
        between(lo, hi) as u32
    } else {
        1
    };
    decoration_for(tree, rubble, sticks, life)
}

impl Chunk {
    pub open spec fn wf(&self) -> bool {
        self.2@.len() == CHUNK_CELLS
    }

    /// Builds chunk `(col, row)` from the noise level of each of its cells
    /// (`levels[i * CHUNK_SIZE + j]` for cell `(i, j)`, at world coordinate
    /// `(col * CHUNK_SIZE + i, row * CHUNK_SIZE + j)`), and the decoration of
    /// each cell, which only meadow cells take.
    pub fn from_levels(col: i64, row: i64, levels: &Vec<i64>, decorations: &Vec<Option<BlockKind>>) -> (r: Chunk)
        requires
            levels@.len() == CHUNK_CELLS,
            decorations@.len() == CHUNK_CELLS,
        ensures
            r.wf(),
            r.0 == col,
            r.1 == row,
            forall|k: int| 0 <= k < CHUNK_CELLS ==> r.2@[k] == cell_at(levels@[k] as int, decorations@[k]),
    {
        let mut cells: Vec<Cell> = Vec::new();
        let mut k: usize = 0;
        while k < CHUNK_CELLS
            invariant
                k <= CHUNK_CELLS,
                levels@.len() == CHUNK_CELLS,
                decorations@.len() == CHUNK_CELLS,
                cells@.len() == k,
                forall|m: int| 0 <= m < k ==> cells@[m] == cell_at(levels@[m] as int, decorations@[m]),
            decreases CHUNK_CELLS - k,
        {
            cells.push(cell_for(levels[k], decorations[k]));
            k += 1;
        }
        Chunk(col, row, cells)
    }

    /// Builds chunk `(col, row)` from the noise level of each of its cells,
    /// as `from_levels` does, drawing the decoration of each meadow cell with
    /// `roll_decoration`.
    pub fn new(col: i64, row: i64, levels: &Vec<i64>) -> (r: Chunk)
        requires
            levels@.len() == CHUNK_CELLS,
        ensures
            r.wf(),
            r.0 == col,
            r.1 == row,
            forall|k: int| 0 <= k < CHUNK_CELLS ==> {
                &&& r.2@[k].0 == terrain_at(levels@[k] as int)
                &&& is_meadow(levels@[k] as int) ==> is_decoration(r.2@[k].1)
                &&& !is_meadow(levels@[k] as int) ==> r.2@[k] == cell_at(levels@[k] as int, None)
            },
    {
        let mut decorations: Vec<Option<BlockKind>> = Vec::new();
        let mut k: usize = 0;
        while k < CHUNK_CELLS
            invariant
                k <= CHUNK_CELLS,
                levels@.len() == CHUNK_CELLS,
                decorations@.len() == k,
                forall|m: int| 0 <= m < k ==> is_decoration(#[trigger] decorations@[m]),
            decreases CHUNK_CELLS - k,
        {
            let level = levels[k];
            if MEADOW_LEVEL <= level && level < STONE_LEVEL {
                decorations.push(roll_decoration());
            } else {
                decorations.push(None);
            }
            k += 1;
        }
        Chunk::from_levels(col, row, levels, &decorations)
    }

    /// The cell `(i, j)`.
    pub fn cell(&self, i: usize, j: usize) -> (r: &Cell)
        requires
            self.wf(),
            i < CHUNK_SIZE,
            j < CHUNK_SIZE,
        ensures
            *r == self.2@[flat(i as int, j as int)],
    {
        &self.2[i * CHUNK_SIDE + j]
    }

    /// Puts `block` on cell `(i, j)`, or clears it.
    pub fn set_block(&mut self, i: usize, j: usize, block: Option<BlockKind>)
        requires
            old(self).wf(),
            i < CHUNK_SIZE,
            j < CHUNK_SIZE,
        ensures
            final(self).wf(),
            final(self).0 == old(self).0,
            final(self).1 == old(self).1,
            final(self).2@ == old(self).2@.update(
                flat(i as int, j as int),
                (old(self).2@[flat(i as int, j as int)].0, block),
            ),
    {
        let k = i * CHUNK_SIDE + j;
        let terrain = self.2[k].0;
        self.2.set(k, (terrain, block));
    }

    /// The most frequent terrain among the chunk's cells; of equally
    /// frequent ones, the first in the order of `Terrain`'s variants.
    pub fn average_terrain(&self) -> (r: Terrain)
        ensures
            forall|t: Terrain| count_terrain(self.2@, t) <= count_terrain(self.2@, r),
            forall|t: Terrain| rank(t) < rank(r) ==> count_terrain(self.2@, t) < count_terrain(self.2@, r),
    {
        let mut counter: [u64; 4] = [0, 0, 0, 0];
        let n = self.2.len();
        let mut k: usize = 0;
        while k < n
            invariant
                k <= n,
                n == self.2@.len(),
                counter@[0] == count_terrain(self.2@.take(k as int), Terrain::DeepWater),
                counter@[1] == count_terrain(self.2@.take(k as int), Terrain::Water),
                counter@[2] == count_terrain(self.2@.take(k as int), Terrain::Grass),
                counter@[3] == count_terrain(self.2@.take(k as int), Terrain::Stone),
                forall|m: int| 0 <= m < 4 ==> counter@[m] <= k,
            decreases n - k,
        {
            assert(self.2@.take(k as int + 1).drop_last() == self.2@.take(k as int));
            match self.2[k].0 {
                Terrain::DeepWater => counter[0] = counter[0] + 1,
                Terrain::Water => counter[1] = counter[1] + 1,
                Terrain::Grass => counter[2] = counter[2] + 1,
                Terrain::Stone => counter[3] = counter[3] + 1,
            }
            k += 1;
        }
        assert(self.2@.take(n as int) == self.2@);
        assert(forall|t: Terrain| counter@[rank(t)] == count_terrain(self.2@, t));
        let mut max: u64 = counter[0];
        let mut idx: usize = 0;
        let mut i: usize = 1;
        while i < 4
            invariant
                1 <= i <= 4,
                idx < i,
                max == counter@[idx as int],
                forall|m: int| 0 <= m < i ==> counter@[m] <= max,
                forall|m: int| 0 <= m < idx ==> counter@[m] < max,
            decreases 4 - i,
        {
            if counter[i] > max {
                idx = i;
                max = counter[i];
            }
            i += 1;
        }
        if idx == 0 {
            Terrain::DeepWater
        } else if idx == 1 {
            Terrain::Water
        } else if idx == 2 {
            Terrain::Grass
        } else {
            Terrain::Stone
        }
    }
}

} // verus!
