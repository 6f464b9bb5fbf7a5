//! A grid of tiles, indexed by the first coordinate and then the second.

use vstd::prelude::*;

use crate::tile::{lemma_name_index, name_index, Tile, Tilelist};

verus! {

/// A grid of tiles: `tiles[x][y]` is the tile at `(x, y)`.
pub struct Tilemap {
    pub tiles: Vec<Vec<Tile>>,
}

/// The tile that a lookup of `name` in `list` gives.
pub open spec fn named_tile(list: Seq<Tile>, name: Seq<char>) -> Tile {
    list[name_index(list, name)]
}

/// A grid of `outer` rows of `inner` cells each, every cell holding `t`.
pub open spec fn uniform_grid(grid: Seq<Seq<Tile>>, outer: int, inner: int, t: Tile) -> bool {
    &&& grid.len() == outer
    &&& forall|i: int| 0 <= i < outer ==> (#[trigger] grid[i]).len() == inner
    &&& forall|i: int, j: int| 0 <= i < outer && 0 <= j < inner ==> #[trigger] grid[i][j] == t
}

impl View for Tilemap {
    type V = Seq<Seq<Tile>>;

    open spec fn view(&self) -> Seq<Seq<Tile>> {
        self.tiles@.map_values(|row: Vec<Tile>| row@)
    }
}

impl Tilemap {
    /// A map of `height` rows of `width` tiles, each the tile of `tilelist`
    /// named `tilename`. `get(x, y)` then takes `x` below `height` and `y`
    /// below `width`.
    pub fn new(width: u32, height: u32, tilename: &str, tilelist: &Tilelist) -> (m: Self)
        requires
            width > 0 && height > 0 ==> name_index(tilelist@, tilename@) >= 0,
        ensures
            uniform_grid(
                m@,
                height as int,
                width as int,
                named_tile(tilelist@, tilename@),
            ),
    {
        let ghost t = named_tile(tilelist@, tilename@);
        let mut tiles: Vec<Vec<Tile>> = Vec::new();
        let mut i: u32 = 0;
        while i < height
            invariant
                i <= height,
                width > 0 && height > 0 ==> name_index(tilelist@, tilename@) >= 0,
                t == named_tile(tilelist@, tilename@),
                tiles@.len() == i,
                forall|a: int| 0 <= a < i ==> (#[trigger] tiles@[a])@.len() == width,
                forall|a: int, b: int|
                    0 <= a < i && 0 <= b < width ==> #[trigger] tiles@[a]@[b] == t,
            decreases height - i,
        {
            let mut row: Vec<Tile> = Vec::new();
            let mut j: u32 = 0;
            while j < width
                invariant
                    j <= width,
                    i < height,
                    width > 0 && height > 0 ==> name_index(tilelist@, tilename@) >= 0,
                    t == named_tile(tilelist@, tilename@),
                    row@.len() == j,
                    forall|b: int| 0 <= b < j ==> #[trigger] row@[b] == t,
                decreases width - j,
            {
                proof {
                    lemma_name_index(tilelist@, tilename@);
                }
                let r = tilelist.tile_at_name(tilename);
                match r {
                    Ok(tile) => {
                        row.push(tile);
                    },
                    Err(_) => {
                        assert(false);
                    },
                }
                j = j + 1;
            }
            tiles.push(row);
            i = i + 1;
        }
        let m = Tilemap { tiles: tiles };
        assert(m@.len() == height);
        m
    }

    /// The tile at `(x, y)`.
    pub fn get(&self, x: u32, y: u32) -> (t: Tile)
        requires
            x < self@.len(),
            y < self@[x as int].len(),
        ensures
            t == self@[x as int][y as int],
    {
        self.tiles[x as usize][y as usize].clone()
    }

    /// Puts the tile of `tilelist` named `name` at `(x, y)`; every other
    /// cell stays as it was.
    pub fn set_by_name(&mut self, x: u32, y: u32, name: &str, tilelist: &Tilelist)
        requires
            x < old(self)@.len(),
            y < old(self)@[x as int].len(),
            name_index(tilelist@, name@) >= 0,
        ensures
            final(self)@ == old(self)@.update(
                x as int,
                old(self)@[x as int].update(y as int, named_tile(tilelist@, name@)),
            ),
    {
        proof {
            lemma_name_index(tilelist@, name@);
        }
        match tilelist.tile_at_name(name) {
            Ok(t) => {
                let ghost before = self.tiles@;
                self.tiles[x as usize][y as usize] = t;
                assert(self@ =~= old(self)@.update(
                    x as int,
                    old(self)@[x as int].update(y as int, named_tile(tilelist@, name@)),
                )) by {
                    assert(self.tiles@ == before.update(x as int, self.tiles@[x as int]));
                }
            },
            Err(_) => {
                assert(false);
            },
        }
    }
}

/// Setting a cell and reading it back: the cell holds the tile that was
/// put there, every other cell holds what it held before, and the shape of
/// the grid is unchanged.
pub proof fn lemma_get_after_set(grid: Seq<Seq<Tile>>, x: int, y: int, t: Tile)
    requires
        0 <= x < grid.len(),
        0 <= y < grid[x].len(),
    ensures
        ({
            let after = grid.update(x, grid[x].update(y, t));
            &&& after.len() == grid.len()
            &&& forall|a: int| 0 <= a < grid.len() ==> (#[trigger] after[a]).len() == grid[a].len()
            &&& after[x][y] == t
            &&& forall|a: int, b: int|
                0 <= a < grid.len() && 0 <= b < grid[a].len() && (a != x || b != y)
                    ==> #[trigger] after[a][b] == grid[a][b]
        }),
{
}

} // verus!
