use terrain_tiles::render::render_tilemap;
use terrain_tiles::sprite::{sprite_origin, TILE_SIZE};
use terrain_tiles::terrain::{is_map_edge, map_center, squared_distance};
use terrain_tiles::tile::{Tile, Tilelist};
use terrain_tiles::tilemap::Tilemap;

/// A sheet whose every byte records where it comes from.
fn coded_sheet(w: u32, h: u32) -> Vec<u8> {
    let mut v = Vec::new();
    for y in 0..h {
        for x in 0..w {
            v.push((x % 251) as u8);
            v.push((y % 251) as u8);
            v.push(((x + y) % 7) as u8);
        }
    }
    v
}

fn px(bytes: &[u8], width: u32, x: u32, y: u32) -> [u8; 3] {
    let i = ((y * width + x) * 3) as usize;
    [bytes[i], bytes[i + 1], bytes[i + 2]]
}

#[test]
fn sprite_origin_values() {
    assert_eq!(sprite_origin(0), (0, 0));
    assert_eq!(sprite_origin(4), (64, 0));
    assert_eq!(sprite_origin(5), (0, 16));
    assert_eq!(sprite_origin(12), (32, 32));
    assert_eq!(sprite_origin(49), (64, 144));
    assert_eq!(sprite_origin(20479), (64, 65520));
}

#[test]
fn render_places_sprites() {
    let list = Tilelist::new(vec![
        Tile::new("a", "x", true, 0),
        Tile::new("b", "x", true, 6),
    ]);
    let mut m = Tilemap::new(2, 2, "a", &list);
    m.set_by_name(1, 0, "b", &list);
    let (sw, sh) = (80u32, 32u32);
    let sheet = coded_sheet(sw, sh);
    let out = render_tilemap(&m, 2, &sheet, sw, sh);
    let size = 2 * TILE_SIZE as u32;
    assert_eq!(out.len(), (size * size * 3) as usize);
    // tile (0, 0) is sprite 0: its pixel (3, 5) is sheet pixel (3, 5)
    assert_eq!(px(&out, size, 3, 5), px(&sheet, sw, 3, 5));
    // tile (1, 0) is sprite 6 at (16, 16): pixel (16 + 2, 7) is sheet (18, 23)
    assert_eq!(px(&out, size, 18, 7), px(&sheet, sw, 18, 23));
    assert_eq!(px(&out, size, 31, 15), px(&sheet, sw, 31, 31));
    // tile (0, 1) is sprite 0 again
    assert_eq!(px(&out, size, 4, 20), px(&sheet, sw, 4, 4));
}

#[test]
fn render_leaves_black_where_sheet_ends() {
    let list = Tilelist::new(vec![Tile::new("far", "x", true, 7)]);
    let m = Tilemap::new(1, 1, "far", &list);
    // sprite 7 starts at (32, 16); the sheet ends at column 40 and row 20
    let (sw, sh) = (40u32, 20u32);
    let sheet = coded_sheet(sw, sh);
    let out = render_tilemap(&m, 1, &sheet, sw, sh);
    assert_eq!(px(&out, 16, 0, 0), px(&sheet, sw, 32, 16));
    assert_eq!(px(&out, 16, 7, 3), px(&sheet, sw, 39, 19));
    assert_eq!(px(&out, 16, 8, 0), [0, 0, 0]);
    assert_eq!(px(&out, 16, 0, 4), [0, 0, 0]);
    assert_eq!(px(&out, 16, 15, 15), [0, 0, 0]);
}

#[test]
fn render_of_sprite_beyond_sheet_is_black() {
    let list = Tilelist::new(vec![Tile::new("gone", "x", true, 40)]);
    let m = Tilemap::new(1, 1, "gone", &list);
    let sheet = coded_sheet(80, 32);
    let out = render_tilemap(&m, 1, &sheet, 80, 32);
    assert!(out.iter().all(|b| *b == 0));
}

#[test]
fn render_of_no_cells_is_empty() {
    let list = Tilelist::new(vec![Tile::new("a", "x", true, 0)]);
    let m = Tilemap::new(0, 0, "a", &list);
    let out = render_tilemap(&m, 0, &coded_sheet(16, 16), 16, 16);
    assert!(out.is_empty());
}

#[test]
fn map_center_values() {
    assert_eq!(map_center(257), 127);
    assert_eq!(map_center(2), 0);
    assert_eq!(map_center(3), 0);
    assert_eq!(map_center(10), 4);
}

#[test]
fn map_edge_values() {
    assert!(is_map_edge(0, 5, 10));
    assert!(is_map_edge(5, 0, 10));
    assert!(is_map_edge(9, 5, 10));
    assert!(is_map_edge(5, 9, 10));
    assert!(!is_map_edge(5, 5, 10));
    assert!(!is_map_edge(1, 8, 10));
    assert!(is_map_edge(0, 0, 1));
}

#[test]
fn squared_distance_values() {
    assert_eq!(squared_distance(0, 0, 3, 4), 25);
    assert_eq!(squared_distance(3, 4, 0, 0), 25);
    assert_eq!(squared_distance(-2, 7, -2, 7), 0);
    assert_eq!(squared_distance(127, 127, 0, 256), 127 * 127 + 129 * 129);
}
