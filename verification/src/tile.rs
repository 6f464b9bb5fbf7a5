//! Tiles and the list of tiles that a map is drawn from.

use vstd::prelude::*;

verus! {

/// One kind of map tile: its unique name, its category, whether units can
/// walk over it, and its index in the sprite sheet.
pub struct Tile {
    pub name: String,
    pub cat: String,
    pub walkable: bool,
    pub id: u16,
}

impl Tile {
    /// Builds a tile from borrowed names.
    pub fn new(name: &str, cat: &str, walkable: bool, id: u16) -> (t: Tile)
        ensures
            t.name@ == name@,
            t.cat@ == cat@,
            t.walkable == walkable,
            t.id == id,
    {
        Tile { name: name.to_owned(), cat: cat.to_owned(), walkable, id }
    }
}

impl Clone for Tile {
    /// A copy that is equal to the original in every field.
    fn clone(&self) -> (t: Tile)
        ensures
            t == *self,
    {
        Tile { name: self.name.clone(), cat: self.cat.clone(), walkable: self.walkable, id: self.id }
    }
}

/// The position of the first tile of `tiles` whose name is `name`, or -1
/// where no tile bears that name.
pub open spec fn name_index(tiles: Seq<Tile>, name: Seq<char>) -> int
    decreases tiles.len(),
{
    if tiles.len() == 0 {
        -1
    } else {
        let earlier = name_index(tiles.drop_last(), name);
        if earlier >= 0 {
            earlier
        } else if tiles.last().name@ == name {
            tiles.len() - 1
        } else {
            -1
        }
    }
}

/// `name_index` finds the first tile that bears the name, and reports -1
/// exactly when no tile does.
pub proof fn lemma_name_index(tiles: Seq<Tile>, name: Seq<char>)
    ensures
        -1 <= name_index(tiles, name) < tiles.len(),
        name_index(tiles, name) >= 0 ==> tiles[name_index(tiles, name)].name@ == name,
        forall|j: int| 0 <= j < name_index(tiles, name) ==> #[trigger] tiles[j].name@ != name,
        name_index(tiles, name) == -1 <==> (forall|j: int|
            0 <= j < tiles.len() ==> #[trigger] tiles[j].name@ != name),
    decreases tiles.len(),
{
    if tiles.len() > 0 {
        let prefix = tiles.drop_last();
        lemma_name_index(prefix, name);
        assert forall|j: int| 0 <= j < prefix.len() implies #[trigger] prefix[j] == tiles[j] by {}
        if name_index(prefix, name) == -1 && tiles.last().name@ != name {
            assert forall|j: int| 0 <= j < tiles.len() implies #[trigger] tiles[j].name@ != name by {
                if j < prefix.len() {
                    assert(prefix[j] == tiles[j]);
                }
            }
        }
        if name_index(prefix, name) >= 0 {
            assert(tiles[name_index(prefix, name)] == prefix[name_index(prefix, name)]);
        }
        assert forall|j: int| 0 <= j < name_index(tiles, name) implies #[trigger] tiles[j].name@
            != name by {
            assert(prefix[j] == tiles[j]);
        }
    }
}

/// The tile at `k` bears the name and no tile before it does: `k` is the
/// position that a lookup by name finds.
pub proof fn lemma_name_index_is(tiles: Seq<Tile>, name: Seq<char>, k: int)
    requires
        0 <= k < tiles.len(),
        tiles[k].name@ == name,
        forall|j: int| 0 <= j < k ==> #[trigger] tiles[j].name@ != name,
    ensures
        name_index(tiles, name) == k,
{
    lemma_name_index(tiles, name);
    let found = name_index(tiles, name);
    if found == -1 {
        assert(tiles[k].name@ != name);
    } else if found < k {
        assert(tiles[found].name@ != name);
    } else if found > k {
        assert(tiles[k].name@ != name);
    }
}

/// The message of a failed lookup by name.
pub open spec fn name_not_found_message() -> Seq<char> {
    "Name not found in Tilelist."@
}

/// The tiles that a map can be made of.
pub struct Tilelist {
    pub tiles: Vec<Tile>,
}

impl View for Tilelist {
    type V = Seq<Tile>;

    open spec fn view(&self) -> Seq<Tile> {
        self.tiles@
    }
}

impl Tilelist {
    /// Wraps a vector of tiles.
    pub fn new(tiles: Vec<Tile>) -> (l: Tilelist)
        ensures
            l@ == tiles@,
    {
        Tilelist { tiles: tiles }
    }

    /// Looks a tile up by name: the first tile of the list that bears the
    /// name, or an error message where none does.
    pub fn tile_at_name(&self, name: &str) -> (r: Result<Tile, &'static str>)
        requires
            self@.len() > 0,
        ensures
            match r {
                Ok(t) => name_index(self@, name@) >= 0 && t == self@[name_index(self@, name@)],
                Err(e) => name_index(self@, name@) == -1 && e@ == name_not_found_message(),
            },
    {
        let wanted: String = name.to_owned();
        let n = self.tiles.len();
        let mut t: usize = 0;
        while t < n
            invariant
                n == self@.len(),
                t <= n,
                wanted@ == name@,
                name_index(self@.take(t as int), name@) == -1,
            decreases n - t,
        {
            assert(self@.take(t as int + 1).drop_last() =~= self@.take(t as int));
            if self.tiles[t].name.eq(&wanted) {
                proof {
                    lemma_name_index_prefix(self@, name@, t as int);
                }
                return Ok(self.tiles[t].clone());
            }
            t = t + 1;
        }
        assert(self@.take(n as int) =~= self@);
        proof {
            reveal_strlit("Name not found in Tilelist.");
        }
        Err("Name not found in Tilelist.")
    }
}

/// Where no tile before position `t` bears the name and the tile at `t`
/// does, `t` is the position of the first tile that bears it.
proof fn lemma_name_index_prefix(tiles: Seq<Tile>, name: Seq<char>, t: int)
    requires
        0 <= t < tiles.len(),
        name_index(tiles.take(t), name) == -1,
        tiles[t].name@ == name,
    ensures
        name_index(tiles, name) == t,
{
    lemma_name_index(tiles.take(t), name);
    lemma_name_index(tiles, name);
    let k = name_index(tiles, name);
    if k >= 0 && k < t {
        assert(tiles.take(t)[k] == tiles[k]);
    }
    if k == -1 {
        assert(tiles[t].name@ != name);
    }
    if k > t {
        assert(tiles[t].name@ != name);
    }
}

} // verus!
