//! Where each tile's sprite lies in the sprite sheet.

use vstd::prelude::*;

verus! {

/// The side of a square tile, in pixels.
pub const TILE_SIZE: u8 = 16;

/// How many sprites one row of the sprite sheet holds.
pub const TILES_WIDE_SPRITE_SHEET: u8 = 5;

/// The pixel column of the left edge of sprite `id` in the sheet.
pub open spec fn sprite_x(id: int) -> int {
    (id % (TILES_WIDE_SPRITE_SHEET as int)) * (TILE_SIZE as int)
}

/// The pixel row of the top edge of sprite `id` in the sheet.
pub open spec fn sprite_y(id: int) -> int {
    (id / (TILES_WIDE_SPRITE_SHEET as int)) * (TILE_SIZE as int)
}

/// Whether the corner of sprite `id` can be held in 16 bits.
pub open spec fn sprite_fits(id: int) -> bool {
    sprite_y(id) <= u16::MAX
}

/// The corner of sprite `id` in the sheet: sprites lie in rows of
/// `TILES_WIDE_SPRITE_SHEET`, in the order of their ids.
pub fn sprite_origin(id: u16) -> (r: (u16, u16))
    requires
        sprite_fits(id as int),
    ensures
        r.0 == sprite_x(id as int),
        r.1 == sprite_y(id as int),
{
    let crop_x = (id % TILES_WIDE_SPRITE_SHEET as u16) * TILE_SIZE as u16;
    let crop_y = (id / TILES_WIDE_SPRITE_SHEET as u16) * TILE_SIZE as u16;
    (crop_x, crop_y)
}

/// Distinct tile ids have distinct sprites, each lying inside the columns of
/// one sheet row.
pub proof fn lemma_sprites_distinct(a: int, b: int)
    requires
        0 <= a,
        0 <= b,
        a != b,
    ensures
        sprite_x(a) != sprite_x(b) || sprite_y(a) != sprite_y(b),
        0 <= sprite_x(a) <= (TILES_WIDE_SPRITE_SHEET as int - 1) * (TILE_SIZE as int),
        sprite_x(a) % (TILE_SIZE as int) == 0,
        sprite_y(a) % (TILE_SIZE as int) == 0,
{
    assert(a == (a / 5) * 5 + a % 5);
    assert(b == (b / 5) * 5 + b % 5);
}

} // verus!
