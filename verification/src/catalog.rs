//! The tiles of the standard sprite sheet.

use vstd::prelude::*;

use crate::tile::{lemma_name_index_is, name_index, Tile, Tilelist};

verus! {

/// How many tiles the standard sprite sheet holds.
pub const STANDARD_TILE_COUNT: usize = 50;

/// The name, category and walkability of the standard tile at position `i`.
pub open spec fn standard_tile(i: int) -> (Seq<char>, Seq<char>, bool) {
    if i == 0 {
        ("grass"@, "grass"@, true)
    } else if i == 1 {
        ("flowers"@, "grass"@, true)
    } else if i == 2 {
        ("thick_grass"@, "grass"@, true)
    } else if i == 3 {
        ("thicker_grass"@, "grass"@, true)
    } else if i == 4 {
        ("forest"@, "grass"@, true)
    } else if i == 5 {
        ("swamp"@, "swamp"@, true)
    } else if i == 6 {
        ("castle_grass"@, "grass"@, true)
    } else if i == 7 {
        ("town_grass"@, "grass"@, true)
    } else if i == 8 {
        ("castle_sand"@, "sand"@, true)
    } else if i == 9 {
        ("town_sand"@, "sand"@, true)
    } else if i == 10 {
        ("bridge_up_down"@, "water"@, true)
    } else if i == 11 {
        ("bridge_left_right"@, "water"@, true)
    } else if i == 12 {
        ("water_0000"@, "water"@, false)
    } else if i == 13 {
        ("sand_0000"@, "sand"@, true)
    } else if i == 14 {
        ("cave_grass"@, "grass"@, true)
    } else if i == 15 {
        ("hill_grass"@, "grass"@, true)
    } else if i == 16 {
        ("mountain_grass"@, "grass"@, false)
    } else if i == 17 {
        ("hill_sand"@, "sand"@, true)
    } else if i == 18 {
        ("mountain_sand"@, "sand"@, false)
    } else if i == 19 {
        ("cave_sand"@, "sand"@, true)
    } else if i == 20 {
        ("water_1111"@, "water"@, false)
    } else if i == 21 {
        ("water_1001"@, "water"@, false)
    } else if i == 22 {
        ("water_1100"@, "water"@, false)
    } else if i == 23 {
        ("water_0011"@, "water"@, false)
    } else if i == 24 {
        ("water_0110"@, "water"@, false)
    } else if i == 25 {
        ("water_1010"@, "water"@, false)
    } else if i == 26 {
        ("water_1101"@, "water"@, false)
    } else if i == 27 {
        ("water_1110"@, "water"@, false)
    } else if i == 28 {
        ("water_1011"@, "water"@, false)
    } else if i == 29 {
        ("water_0111"@, "water"@, false)
    } else if i == 30 {
        ("water_0101"@, "water"@, false)
    } else if i == 31 {
        ("water_1000"@, "water"@, false)
    } else if i == 32 {
        ("water_0100"@, "water"@, false)
    } else if i == 33 {
        ("water_0010"@, "water"@, false)
    } else if i == 34 {
        ("water_0001"@, "water"@, false)
    } else if i == 35 {
        ("sand_1111"@, "sand"@, true)
    } else if i == 36 {
        ("sand_1001"@, "sand"@, true)
    } else if i == 37 {
        ("sand_1100"@, "sand"@, true)
    } else if i == 38 {
        ("sand_0011"@, "sand"@, true)
    } else if i == 39 {
        ("sand_0110"@, "sand"@, true)
    } else if i == 40 {
        ("sand_1010"@, "sand"@, true)
    } else if i == 41 {
        ("sand_1101"@, "sand"@, true)
    } else if i == 42 {
        ("sand_1110"@, "sand"@, true)
    } else if i == 43 {
        ("sand_1011"@, "sand"@, true)
    } else if i == 44 {
        ("sand_0111"@, "sand"@, true)
    } else if i == 45 {
        ("sand_0101"@, "sand"@, true)
    } else if i == 46 {
        ("sand_1000"@, "sand"@, true)
    } else if i == 47 {
        ("sand_0100"@, "sand"@, true)
    } else if i == 48 {
        ("sand_0010"@, "sand"@, true)
    } else if i == 49 {
        ("sand_0001"@, "sand"@, true)
    } else {
        (Seq::empty(), Seq::empty(), false)
    }
}

/// The standard list of tiles: the tile at each position has that position
/// as its sprite id, and the name, category and walkability that
/// `standard_tile` gives.
pub fn standard_tilelist() -> (l: Tilelist)
    ensures
        is_standard_tilelist(l@),
        forall|i: int|
            0 <= i < STANDARD_TILE_COUNT ==> ((#[trigger] l@[i]).walkable <==> !(i == 12 || i == 16
                || i == 18 || 20 <= i < 35)),
        forall|i: int|
            0 <= i < STANDARD_TILE_COUNT && (#[trigger] l@[i]).cat@ == "water"@ && l@[i].name@
                != "bridge_up_down"@ && l@[i].name@ != "bridge_left_right"@ ==> !l@[i].walkable,
        l@[12].name@ == "water_0000"@,
        !l@[12].walkable,
{
    let mut tiles: Vec<Tile> = Vec::new();
    tiles.push(Tile::new("grass", "grass", true, 0));
    tiles.push(Tile::new("flowers", "grass", true, 1));
    tiles.push(Tile::new("thick_grass", "grass", true, 2));
    tiles.push(Tile::new("thicker_grass", "grass", true, 3));
    tiles.push(Tile::new("forest", "grass", true, 4));
    tiles.push(Tile::new("swamp", "swamp", true, 5));
    tiles.push(Tile::new("castle_grass", "grass", true, 6));
    tiles.push(Tile::new("town_grass", "grass", true, 7));
    tiles.push(Tile::new("castle_sand", "sand", true, 8));
    tiles.push(Tile::new("town_sand", "sand", true, 9));
    tiles.push(Tile::new("bridge_up_down", "water", true, 10));
    tiles.push(Tile::new("bridge_left_right", "water", true, 11));
    tiles.push(Tile::new("water_0000", "water", false, 12));
    tiles.push(Tile::new("sand_0000", "sand", true, 13));
    tiles.push(Tile::new("cave_grass", "grass", true, 14));
    tiles.push(Tile::new("hill_grass", "grass", true, 15));
    tiles.push(Tile::new("mountain_grass", "grass", false, 16));
    tiles.push(Tile::new("hill_sand", "sand", true, 17));
    tiles.push(Tile::new("mountain_sand", "sand", false, 18));
    tiles.push(Tile::new("cave_sand", "sand", true, 19));
    tiles.push(Tile::new("water_1111", "water", false, 20));
    tiles.push(Tile::new("water_1001", "water", false, 21));
    tiles.push(Tile::new("water_1100", "water", false, 22));
    tiles.push(Tile::new("water_0011", "water", false, 23));
    tiles.push(Tile::new("water_0110", "water", false, 24));
    tiles.push(Tile::new("water_1010", "water", false, 25));
    tiles.push(Tile::new("water_1101", "water", false, 26));
    tiles.push(Tile::new("water_1110", "water", false, 27));
    tiles.push(Tile::new("water_1011", "water", false, 28));
    tiles.push(Tile::new("water_0111", "water", false, 29));
    tiles.push(Tile::new("water_0101", "water", false, 30));
    tiles.push(Tile::new("water_1000", "water", false, 31));
    tiles.push(Tile::new("water_0100", "water", false, 32));
    tiles.push(Tile::new("water_0010", "water", false, 33));
    tiles.push(Tile::new("water_0001", "water", false, 34));
    tiles.push(Tile::new("sand_1111", "sand", true, 35));
    tiles.push(Tile::new("sand_1001", "sand", true, 36));
    tiles.push(Tile::new("sand_1100", "sand", true, 37));
    tiles.push(Tile::new("sand_0011", "sand", true, 38));
    tiles.push(Tile::new("sand_0110", "sand", true, 39));
    tiles.push(Tile::new("sand_1010", "sand", true, 40));
    tiles.push(Tile::new("sand_1101", "sand", true, 41));
    tiles.push(Tile::new("sand_1110", "sand", true, 42));
    tiles.push(Tile::new("sand_1011", "sand", true, 43));
    tiles.push(Tile::new("sand_0111", "sand", true, 44));
    tiles.push(Tile::new("sand_0101", "sand", true, 45));
    tiles.push(Tile::new("sand_1000", "sand", true, 46));
    tiles.push(Tile::new("sand_0100", "sand", true, 47));
    tiles.push(Tile::new("sand_0010", "sand", true, 48));
    tiles.push(Tile::new("sand_0001", "sand", true, 49));
    let l = Tilelist::new(tiles);
    proof {
        lemma_standard_walkability(l@);
    }
    l
}

/// Whether `tiles` is the standard list of tiles.
pub open spec fn is_standard_tilelist(tiles: Seq<Tile>) -> bool {
    &&& tiles.len() == STANDARD_TILE_COUNT
    &&& forall|i: int|
        0 <= i < STANDARD_TILE_COUNT ==> (#[trigger] tiles[i]).id == i && (
        tiles[i].name@,
        tiles[i].cat@,
        tiles[i].walkable,
    ) == standard_tile(i)
}

/// Which standard tiles can be walked on: all but open water, the
/// mountains and the water edges (positions 12, 16, 18 and 20 to 34). The
/// water tiles are those at 10 to 12 and 20 to 34, and of them only the two
/// bridges can be walked on; in particular the open water tile
/// "water_0000" at position 12 cannot.
pub proof fn lemma_standard_walkability(tiles: Seq<Tile>)
    requires
        is_standard_tilelist(tiles),
    ensures
        forall|i: int|
            0 <= i < STANDARD_TILE_COUNT ==> ((#[trigger] tiles[i]).walkable <==> !(i == 12 || i
                == 16 || i == 18 || 20 <= i < 35)),
        forall|i: int|
            0 <= i < STANDARD_TILE_COUNT ==> ((#[trigger] tiles[i]).cat@ == "water"@ <==> (10 <= i
                <= 12 || 20 <= i < 35)),
        forall|i: int|
            0 <= i < STANDARD_TILE_COUNT && (#[trigger] tiles[i]).cat@ == "water"@ && tiles[i].name@
                != "bridge_up_down"@ && tiles[i].name@ != "bridge_left_right"@ ==> !tiles[i].walkable,
        forall|i: int|
            0 <= i < STANDARD_TILE_COUNT ==> ((#[trigger] tiles[i]).cat@ == "grass"@ <==> (0 <= i
                <= 4 || i == 6 || i == 7 || 14 <= i <= 16)),
        forall|i: int|
            0 <= i < STANDARD_TILE_COUNT ==> ((#[trigger] tiles[i]).cat@ == "sand"@ <==> (i == 8
                || i == 9 || i == 13 || 17 <= i <= 19 || 35 <= i < 50)),
        forall|i: int|
            0 <= i < STANDARD_TILE_COUNT ==> ((#[trigger] tiles[i]).cat@ == "swamp"@ <==> i == 5),
        tiles[12].name@ == "water_0000"@,
        tiles[12].cat@ == "water"@,
        !tiles[12].walkable,
{
    reveal_strlit("water");
    reveal_strlit("grass");
    reveal_strlit("swamp");
    reveal_strlit("sand");
    assert("water"@[0] != "grass"@[0]);
    assert("water"@[0] != "swamp"@[0]);
    assert("grass"@[0] != "swamp"@[0]);
    assert forall|i: int| 0 <= i < STANDARD_TILE_COUNT implies ((#[trigger] tiles[i]).walkable
        <==> !(i == 12 || i == 16 || i == 18 || 20 <= i < 35)) && (tiles[i].cat@ == "water"@ <==> (
    10 <= i <= 12 || 20 <= i < 35)) by {
        assert(tiles[i].walkable == standard_tile(i).2);
        assert(tiles[i].cat@ == standard_tile(i).1);
    }
    assert forall|i: int| 0 <= i < STANDARD_TILE_COUNT implies ((#[trigger] tiles[i]).cat@
        == "sand"@ <==> (i == 8 || i == 9 || i == 13 || 17 <= i <= 19 || 35 <= i < 50)) && (
    tiles[i].cat@ == "swamp"@ <==> i == 5) by {
        assert(tiles[i].cat@ == standard_tile(i).1);
    }
    assert(tiles[10].name@ == standard_tile(10).0);
    assert(tiles[11].name@ == standard_tile(11).0);
    assert(tiles[12].name@ == standard_tile(12).0);
}

/// The four terrain tiles that the generator paints a map with are in the
/// standard list: a lookup of "grass" finds position 0, of "water_0000"
/// position 12, of "hill_grass" position 15 and of "mountain_grass"
/// position 16.
pub proof fn lemma_standard_terrain_names(tiles: Seq<Tile>)
    requires
        is_standard_tilelist(tiles),
    ensures
        name_index(tiles, "grass"@) == 0,
        name_index(tiles, "water_0000"@) == 12,
        name_index(tiles, "hill_grass"@) == 15,
        name_index(tiles, "mountain_grass"@) == 16,
{
    reveal_strlit("grass");
    reveal_strlit("flowers");
    reveal_strlit("thick_grass");
    reveal_strlit("thicker_grass");
    reveal_strlit("forest");
    reveal_strlit("swamp");
    reveal_strlit("castle_grass");
    reveal_strlit("town_grass");
    reveal_strlit("castle_sand");
    reveal_strlit("town_sand");
    reveal_strlit("bridge_up_down");
    reveal_strlit("bridge_left_right");
    reveal_strlit("water_0000");
    reveal_strlit("sand_0000");
    reveal_strlit("cave_grass");
    reveal_strlit("hill_grass");
    reveal_strlit("mountain_grass");
    assert("town_grass"@[0] != "water_0000"@[0]);
    assert("town_grass"@[0] != "hill_grass"@[0]);
    assert("water_0000"@[0] != "hill_grass"@[0]);
    assert("bridge_up_down"@[0] != "mountain_grass"@[0]);
    assert(tiles[0].name@ == "grass"@);
    lemma_name_index_is(tiles, "grass"@, 0);
    assert forall|j: int| 0 <= j < 12 implies #[trigger] tiles[j].name@ != "water_0000"@ by {
        assert(tiles[j].name@ == standard_tile(j).0);
    }
    assert(tiles[12].name@ == standard_tile(12).0);
    lemma_name_index_is(tiles, "water_0000"@, 12);
    assert forall|j: int| 0 <= j < 15 implies #[trigger] tiles[j].name@ != "hill_grass"@ by {
        assert(tiles[j].name@ == standard_tile(j).0);
    }
    assert(tiles[15].name@ == standard_tile(15).0);
    lemma_name_index_is(tiles, "hill_grass"@, 15);
    assert forall|j: int| 0 <= j < 16 implies #[trigger] tiles[j].name@ != "mountain_grass"@ by {
        assert(tiles[j].name@ == standard_tile(j).0);
    }
    assert(tiles[16].name@ == standard_tile(16).0);
    lemma_name_index_is(tiles, "mountain_grass"@, 16);
}

} // verus!
