use terrain_tiles::catalog::{standard_tilelist, STANDARD_TILE_COUNT};
use terrain_tiles::tile::{Tile, Tilelist};
use terrain_tiles::tilemap::Tilemap;

fn small_list() -> Tilelist {
    Tilelist::new(vec![
        Tile::new("grass", "grass", true, 0),
        Tile::new("water_0000", "water", false, 12),
        Tile::new("grass", "meadow", false, 7),
        Tile::new("hill_grass", "grass", true, 15),
    ])
}

#[test]
fn tile_new_keeps_fields() {
    let t = Tile::new("swamp", "swamp", true, 5);
    assert_eq!(t.name, "swamp");
    assert_eq!(t.cat, "swamp");
    assert!(t.walkable);
    assert_eq!(t.id, 5);
}

#[test]
fn tile_clone_is_equal() {
    let t = Tile::new("forest", "grass", true, 4);
    let c = t.clone();
    assert_eq!(c.name, t.name);
    assert_eq!(c.cat, t.cat);
    assert_eq!(c.walkable, t.walkable);
    assert_eq!(c.id, t.id);
}

#[test]
fn lookup_finds_named_tile() {
    let list = small_list();
    let t = list.tile_at_name("water_0000").unwrap();
    assert_eq!(t.id, 12);
    assert_eq!(t.cat, "water");
    assert!(!t.walkable);
}

#[test]
fn lookup_finds_first_of_equal_names() {
    let list = small_list();
    let t = list.tile_at_name("grass").unwrap();
    assert_eq!(t.id, 0);
    assert_eq!(t.cat, "grass");
}

#[test]
fn lookup_of_missing_name_fails() {
    let list = small_list();
    match list.tile_at_name("lava") {
        Ok(_) => panic!("found a tile that is not in the list"),
        Err(e) => assert_eq!(e, "Name not found in Tilelist."),
    }
}

#[test]
fn lookup_is_exact_not_prefix() {
    let list = small_list();
    assert!(list.tile_at_name("gras").is_err());
    assert!(list.tile_at_name("grass ").is_err());
    assert!(list.tile_at_name("").is_err());
}

#[test]
fn new_map_is_uniform() {
    let list = small_list();
    let m = Tilemap::new(3, 2, "hill_grass", &list);
    assert_eq!(m.tiles.len(), 2);
    for row in &m.tiles {
        assert_eq!(row.len(), 3);
    }
    for x in 0..2 {
        for y in 0..3 {
            assert_eq!(m.get(x, y).id, 15);
        }
    }
}

#[test]
fn empty_map_needs_no_lookup() {
    let list = small_list();
    let m = Tilemap::new(0, 4, "not there", &list);
    assert_eq!(m.tiles.len(), 4);
    assert!(m.tiles.iter().all(|r| r.is_empty()));
    let m = Tilemap::new(5, 0, "not there", &list);
    assert!(m.tiles.is_empty());
}

#[test]
fn get_after_set_reads_back() {
    let list = small_list();
    let mut m = Tilemap::new(3, 3, "grass", &list);
    m.set_by_name(1, 2, "water_0000", &list);
    assert_eq!(m.get(1, 2).id, 12);
    for x in 0..3 {
        for y in 0..3 {
            if (x, y) != (1, 2) {
                assert_eq!(m.get(x, y).id, 0);
            }
        }
    }
    m.set_by_name(1, 2, "hill_grass", &list);
    assert_eq!(m.get(1, 2).name, "hill_grass");
}

#[test]
fn standard_list_has_ids_in_order() {
    let list = standard_tilelist();
    assert_eq!(list.tiles.len(), STANDARD_TILE_COUNT);
    assert_eq!(STANDARD_TILE_COUNT, 50);
    for (i, t) in list.tiles.iter().enumerate() {
        assert_eq!(t.id as usize, i);
    }
    assert_eq!(list.tiles[5].name, "swamp");
    assert_eq!(list.tiles[49].name, "sand_0001");
    assert_eq!(list.tiles[49].cat, "sand");
}

#[test]
fn standard_terrain_names_are_found() {
    let list = standard_tilelist();
    assert_eq!(list.tile_at_name("grass").unwrap().id, 0);
    assert_eq!(list.tile_at_name("water_0000").unwrap().id, 12);
    assert_eq!(list.tile_at_name("hill_grass").unwrap().id, 15);
    assert_eq!(list.tile_at_name("mountain_grass").unwrap().id, 16);
    assert!(!list.tile_at_name("mountain_grass").unwrap().walkable);
}
