//! Rendering a tile map as an RGB raster made of the tiles' sprites.

use vstd::prelude::*;

use crate::raster::{
    crop_extent,
    crop_rgb,
    crop_start,
    is_raster,
    lemma_pixel_in_raster,
    overlay_extent,
    pixel_at,
    place_rgb,
};
use crate::sprite::{sprite_fits, sprite_origin, sprite_x, sprite_y, TILE_SIZE};
use crate::tilemap::Tilemap;

verus! {

/// Whether the first `cells` by `cells` corner of `grid` exists and every
/// tile in it has a sprite corner that fits in 16 bits.
pub open spec fn renderable(grid: Seq<Seq<crate::tile::Tile>>, cells: int) -> bool {
    &&& cells <= grid.len()
    &&& forall|x: int| 0 <= x < cells ==> cells <= (#[trigger] grid[x]).len()
    &&& forall|x: int, y: int| 0 <= x < cells && 0 <= y < cells ==> sprite_fits(
        (#[trigger] grid[x][y]).id as int,
    )
}

/// The channel `c` of the pixel at `(px, py)` of a rendered map: pixel
/// `(px, py)` belongs to the tile at `(px / TILE_SIZE, py / TILE_SIZE)`, and
/// shows the pixel of that tile's sprite at the same offset, where the sheet
/// has it; elsewhere it is black.
pub open spec fn map_pixel(
    grid: Seq<Seq<crate::tile::Tile>>,
    sheet: Seq<u8>,
    sheet_w: int,
    sheet_h: int,
    px: int,
    py: int,
    c: int,
) -> u8 {
    let size = TILE_SIZE as int;
    let id = grid[px / size][py / size].id as int;
    let dx = px % size;
    let dy = py % size;
    if dx < crop_extent(sheet_w, sprite_x(id), size) && dy < crop_extent(sheet_h, sprite_y(id), size) {
        pixel_at(
            sheet,
            sheet_w,
            crop_start(sheet_w, sprite_x(id)) + dx,
            crop_start(sheet_h, sprite_y(id)) + dy,
            c,
        )
    } else {
        0
    }
}

/// Pixel `p` on an axis lies in tile `t` at offset `p - TILE_SIZE * t`.
proof fn lemma_tile_of_pixel(p: int, t: int)
    requires
        0 <= t,
        16 * t <= p < 16 * t + 16,
    ensures
        p / 16 == t,
        p % 16 == p - 16 * t,
{
}

/// A pixel below `TILE_SIZE * cells` lies in a tile below `cells`.
proof fn lemma_tile_below(p: int, cells: int)
    requires
        0 <= p < 16 * cells,
    ensures
        0 <= p / 16 < cells,
        0 <= p % 16 < 16,
{
}

/// The channel `c` of the pixel at offset `(dx, dy)` inside the tile at
/// `(x, y)` of a map raster `width` pixels wide.
pub open spec fn tile_pixel(out: Seq<u8>, width: int, x: int, y: int, dx: int, dy: int, c: int) -> u8 {
    pixel_at(out, width, 16 * x + dx, 16 * y + dy, c)
}

/// What a rendered map shows inside each tile: for the tile at `(x, y)`
/// with id `id`, whose sprite starts at column `(id % 5) * 16` and row
/// `(id / 5) * 16` of the sheet, the pixel at offset `(dx, dy)` is the sheet
/// pixel at that offset from the sprite's corner (the corner moved back into
/// the sheet), where the cut of 16 by 16 pixels from the sheet reaches it,
/// and black elsewhere. Two tiles with the same id therefore look the same
/// wherever they stand.
pub proof fn lemma_rendered_tiles(
    out: Seq<u8>,
    grid: Seq<Seq<crate::tile::Tile>>,
    sheet: Seq<u8>,
    sheet_w: int,
    sheet_h: int,
    cells: int,
)
    requires
        0 <= cells,
        forall|px: int, py: int, c: int|
            0 <= px < cells * 16 && 0 <= py < cells * 16 && 0 <= c < 3 ==> #[trigger] pixel_at(
                out,
                cells * 16,
                px,
                py,
                c,
            ) == map_pixel(grid, sheet, sheet_w, sheet_h, px, py, c),
    ensures
        forall|x: int, y: int, dx: int, dy: int, c: int|
            0 <= x < cells && 0 <= y < cells && 0 <= dx < 16 && 0 <= dy < 16 && 0 <= c < 3
                ==> #[trigger] tile_pixel(out, cells * 16, x, y, dx, dy, c) == ({
                let id = grid[x][y].id as int;
                if dx < crop_extent(sheet_w, (id % 5) * 16, 16) && dy < crop_extent(
                    sheet_h,
                    (id / 5) * 16,
                    16,
                ) {
                    pixel_at(
                        sheet,
                        sheet_w,
                        crop_start(sheet_w, (id % 5) * 16) + dx,
                        crop_start(sheet_h, (id / 5) * 16) + dy,
                        c,
                    )
                } else {
                    0
                }
            }),
        forall|x1: int, y1: int, x2: int, y2: int, dx: int, dy: int, c: int|
            0 <= x1 < cells && 0 <= y1 < cells && 0 <= x2 < cells && 0 <= y2 < cells && 0 <= dx
                < 16 && 0 <= dy < 16 && 0 <= c < 3 && grid[x1][y1].id == grid[x2][y2].id
                ==> #[trigger] tile_pixel(out, cells * 16, x1, y1, dx, dy, c) == #[trigger] tile_pixel(
                out,
                cells * 16,
                x2,
                y2,
                dx,
                dy,
                c,
            ),
{
    assert forall|x: int, y: int, dx: int, dy: int, c: int|
        0 <= x < cells && 0 <= y < cells && 0 <= dx < 16 && 0 <= dy < 16 && 0 <= c < 3
            implies #[trigger] tile_pixel(out, cells * 16, x, y, dx, dy, c) == ({
            let id = grid[x][y].id as int;
            if dx < crop_extent(sheet_w, (id % 5) * 16, 16) && dy < crop_extent(
                sheet_h,
                (id / 5) * 16,
                16,
            ) {
                pixel_at(
                    sheet,
                    sheet_w,
                    crop_start(sheet_w, (id % 5) * 16) + dx,
                    crop_start(sheet_h, (id / 5) * 16) + dy,
                    c,
                )
            } else {
                0
            }
        }) by {
        lemma_tile_of_pixel(16 * x + dx, x);
        lemma_tile_of_pixel(16 * y + dy, y);
        assert(16 * x + dx < cells * 16);
        assert(16 * y + dy < cells * 16);
        assert(pixel_at(out, cells * 16, 16 * x + dx, 16 * y + dy, c) == map_pixel(
            grid,
            sheet,
            sheet_w,
            sheet_h,
            16 * x + dx,
            16 * y + dy,
            c,
        ));
    }
}

/// Renders the first `cells` by `cells` tiles of `tilemap` as an RGB raster
/// `TILE_SIZE * cells` pixels square: the sprite of the tile at `(x, y)`,
/// cut from the RGB raster `sheet`, is placed with its corner at
/// `(TILE_SIZE * x, TILE_SIZE * y)` on a black raster.
pub fn render_tilemap(tilemap: &Tilemap, cells: u32, sheet: &Vec<u8>, sheet_w: u32, sheet_h: u32) -> (out:
    Vec<u8>)
    requires
        cells * 16 <= u32::MAX,
        (cells * 16) * (cells * 16) * 3 <= usize::MAX,
        is_raster(sheet@, sheet_w as int, sheet_h as int),
        renderable(tilemap@, cells as int),
    ensures
        is_raster(out@, cells * 16, cells * 16),
        forall|px: int, py: int, c: int|
            0 <= px < cells * 16 && 0 <= py < cells * 16 && 0 <= c < 3 ==> #[trigger] pixel_at(
                out@,
                cells * 16,
                px,
                py,
                c,
            ) == map_pixel(tilemap@, sheet@, sheet_w as int, sheet_h as int, px, py, c),
        forall|x: int, y: int, dx: int, dy: int, c: int|
            0 <= x < cells && 0 <= y < cells && 0 <= dx < 16 && 0 <= dy < 16 && 0 <= c < 3
                ==> #[trigger] tile_pixel(out@, cells * 16, x, y, dx, dy, c) == ({
                let id = tilemap@[x][y].id as int;
                if dx < crop_extent(sheet_w as int, (id % 5) * 16, 16) && dy < crop_extent(
                    sheet_h as int,
                    (id / 5) * 16,
                    16,
                ) {
                    pixel_at(
                        sheet@,
                        sheet_w as int,
                        crop_start(sheet_w as int, (id % 5) * 16) + dx,
                        crop_start(sheet_h as int, (id / 5) * 16) + dy,
                        c,
                    )
                } else {
                    0
                }
            }),
        forall|x1: int, y1: int, x2: int, y2: int, dx: int, dy: int, c: int|
            0 <= x1 < cells && 0 <= y1 < cells && 0 <= x2 < cells && 0 <= y2 < cells && 0 <= dx
                < 16 && 0 <= dy < 16 && 0 <= c < 3 && tilemap@[x1][y1].id == tilemap@[x2][y2].id
                ==> #[trigger] tile_pixel(out@, cells * 16, x1, y1, dx, dy, c) == #[trigger] tile_pixel(
                out@,
                cells * 16,
                x2,
                y2,
                dx,
                dy,
                c,
            ),
{
    let size: u32 = cells * TILE_SIZE as u32;
    let total: usize = (size as usize) * (size as usize) * 3;
    let ghost w = size as int;
    let ghost grid = tilemap@;
    let mut out: Vec<u8> = Vec::new();
    let mut k: usize = 0;
    while k < total
        invariant
            k <= total,
            out@.len() == k,
            forall|i: int| 0 <= i < k ==> #[trigger] out@[i] == 0,
        decreases total - k,
    {
        out.push(0);
        k = k + 1;
    }
    assert forall|px: int, py: int, c: int|
        0 <= px < w && 0 <= py < w && 0 <= c < 3 implies #[trigger] pixel_at(out@, w, px, py, c)
        == 0 by {
        lemma_pixel_in_raster(w, w, px, py, c);
    }
    let mut x: u32 = 0;
    while x < cells
        invariant
            x <= cells,
            size == cells * 16,
            w == size,
            total == w * w * 3,
            grid == tilemap@,
            is_raster(sheet@, sheet_w as int, sheet_h as int),
            renderable(grid, cells as int),
            out@.len() == total,
            forall|px: int, py: int, c: int|
                0 <= px < w && 0 <= py < w && 0 <= c < 3 ==> #[trigger] pixel_at(out@, w, px, py, c)
                    == if px / 16 < x {
                    map_pixel(grid, sheet@, sheet_w as int, sheet_h as int, px, py, c)
                } else {
                    0
                },
        decreases cells - x,
    {
        let mut y: u32 = 0;
        while y < cells
            invariant
                x < cells,
                y <= cells,
                size == cells * 16,
                w == size,
                total == w * w * 3,
                grid == tilemap@,
                is_raster(sheet@, sheet_w as int, sheet_h as int),
                renderable(grid, cells as int),
                out@.len() == total,
                forall|px: int, py: int, c: int|
                    0 <= px < w && 0 <= py < w && 0 <= c < 3 ==> #[trigger] pixel_at(
                        out@,
                        w,
                        px,
                        py,
                        c,
                    ) == if px / 16 < x || (px / 16 == x && py / 16 < y) {
                        map_pixel(grid, sheet@, sheet_w as int, sheet_h as int, px, py, c)
                    } else {
                        0
                    },
            decreases cells - y,
        {
            let tile = tilemap.get(x, y);
            assert(sprite_fits(grid[x as int][y as int].id as int));
            let (crop_x, crop_y) = sprite_origin(tile.id);
            let (crop, crop_w, crop_h) = crop_rgb(
                sheet,
                sheet_w,
                sheet_h,
                crop_x as u32,
                crop_y as u32,
                TILE_SIZE as u32,
                TILE_SIZE as u32,
            );
            let ghost before = out@;
            let ghost crop_view = crop@;
            let left: u32 = TILE_SIZE as u32 * x;
            let top: u32 = TILE_SIZE as u32 * y;
            place_rgb(&mut out, size, size, crop, crop_w, crop_h, left, top);
            assert(overlay_extent(w, left as int, crop_w as int) == crop_w);
            assert(overlay_extent(w, top as int, crop_h as int) == crop_h);
            assert forall|px: int, py: int, c: int|
                0 <= px < w && 0 <= py < w && 0 <= c < 3 implies #[trigger] pixel_at(
                out@,
                w,
                px,
                py,
                c,
            ) == if px / 16 < x || (px / 16 == x && py / 16 < y + 1) {
                map_pixel(grid, sheet@, sheet_w as int, sheet_h as int, px, py, c)
            } else {
                0
            } by {
                assert(pixel_at(before, w, px, py, c) == if px / 16 < x || (px / 16 == x && py / 16
                    < y) {
                    map_pixel(grid, sheet@, sheet_w as int, sheet_h as int, px, py, c)
                } else {
                    0
                });
                if left <= px < left + 16 && top <= py < top + 16 {
                    lemma_tile_of_pixel(px, x as int);
                    lemma_tile_of_pixel(py, y as int);
                    if px < left + crop_w && py < top + crop_h {
                        assert(pixel_at(crop_view, crop_w as int, px - left, py - top, c)
                            == pixel_at(
                            sheet@,
                            sheet_w as int,
                            crop_start(sheet_w as int, crop_x as int) + (px - left),
                            crop_start(sheet_h as int, crop_y as int) + (py - top),
                            c,
                        ));
                    }
                } else {
                    if px / 16 == x && py / 16 == y {
                        lemma_tile_below(px, cells as int);
                        lemma_tile_below(py, cells as int);
                        assert(false);
                    }
                }
            }
            y = y + 1;
        }
        assert forall|px: int, py: int, c: int|
            0 <= px < w && 0 <= py < w && 0 <= c < 3 implies #[trigger] pixel_at(out@, w, px, py, c)
            == if px / 16 < x + 1 {
            map_pixel(grid, sheet@, sheet_w as int, sheet_h as int, px, py, c)
        } else {
            0
        } by {
            lemma_tile_below(py, cells as int);
        }
        x = x + 1;
    }
    assert forall|px: int, py: int, c: int|
        0 <= px < w && 0 <= py < w && 0 <= c < 3 implies #[trigger] pixel_at(out@, w, px, py, c)
        == map_pixel(grid, sheet@, sheet_w as int, sheet_h as int, px, py, c) by {
        lemma_tile_below(px, cells as int);
    }
    proof {
        lemma_rendered_tiles(out@, grid, sheet@, sheet_w as int, sheet_h as int, cells as int);
    }
    out
}

} // verus!
