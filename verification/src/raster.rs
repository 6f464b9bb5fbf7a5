//! Raw RGB rasters: row-major bytes, three per pixel, and the two image
//! operations that the map renderer takes from the `image` crate.

use vstd::prelude::*;

use image::{ImageBuffer, RgbImage};

verus! {

/// The byte of colour channel `c` of the pixel at `(x, y)` in a row-major
/// RGB raster that is `width` pixels wide.
pub open spec fn pixel_at(bytes: Seq<u8>, width: int, x: int, y: int, c: int) -> u8 {
    bytes[(y * width + x) * 3 + c]
}

/// Whether `bytes` is exactly a `width` by `height` RGB raster.
pub open spec fn is_raster(bytes: Seq<u8>, width: int, height: int) -> bool {
    bytes.len() == width * height * 3
}

/// The length of a cut along one axis of `full` pixels that asks for `len`
/// pixels from `start`: the start is moved back into the image and the cut
/// ends at the image's edge.
pub open spec fn crop_extent(full: int, start: int, len: int) -> int {
    let s = if start < full { start } else { full };
    if len < full - s { len } else { full - s }
}

/// Where a cut that asks to start at `start` starts along an axis of `full`
/// pixels.
pub open spec fn crop_start(full: int, start: int) -> int {
    if start < full { start } else { full }
}

/// How many of `len` pixels that are placed from `start` on an axis of
/// `full` pixels land inside it.
pub open spec fn overlay_extent(full: int, start: int, len: int) -> int {
    if start < full {
        if len < full - start { len } else { full - start }
    } else {
        0
    }
}

/// Cuts a `w` by `h` region at `(x, y)` out of an RGB raster, by
/// `image::imageops::crop_imm`, and hands back the copied region with its
/// width and height. The crate moves the corner back into the image and
/// cuts the region off at the image's edges; each pixel of the region is the
/// pixel of the source at the corner plus its position.
#[verifier::external_body]
pub(crate) fn crop_rgb(
    sheet: &Vec<u8>,
    sheet_w: u32,
    sheet_h: u32,
    x: u32,
    y: u32,
    w: u32,
    h: u32,
) -> (r: (Vec<u8>, u32, u32))
    requires
        is_raster(sheet@, sheet_w as int, sheet_h as int),
    ensures
        r.1 == crop_extent(sheet_w as int, x as int, w as int),
        r.2 == crop_extent(sheet_h as int, y as int, h as int),
        is_raster(r.0@, r.1 as int, r.2 as int),
        forall|i: int, j: int, c: int|
            0 <= i < r.1 && 0 <= j < r.2 && 0 <= c < 3 ==> #[trigger] pixel_at(
                r.0@,
                r.1 as int,
                i,
                j,
                c,
            ) == pixel_at(
                sheet@,
                sheet_w as int,
                crop_start(sheet_w as int, x as int) + i,
                crop_start(sheet_h as int, y as int) + j,
                c,
            ),
{
    let img: RgbImage = ImageBuffer::from_raw(sheet_w, sheet_h, sheet.clone()).unwrap();
    let part = image::imageops::crop_imm(&img, x, y, w, h).to_image();
    let (part_w, part_h) = (part.width(), part.height());
    (part.into_raw(), part_w, part_h)
}

/// Writes the RGB raster `top` over `dest` with its corner at `(x, y)`, by
/// `image::imageops::replace`. The crate copies the part of `top` that lands
/// inside `dest`; every other pixel of `dest` stays as it was.
#[verifier::external_body]
pub(crate) fn place_rgb(
    dest: &mut Vec<u8>,
    dest_w: u32,
    dest_h: u32,
    top: Vec<u8>,
    top_w: u32,
    top_h: u32,
    x: u32,
    y: u32,
)
    requires
        is_raster(old(dest)@, dest_w as int, dest_h as int),
        is_raster(top@, top_w as int, top_h as int),
    ensures
        final(dest)@.len() == old(dest)@.len(),
        forall|px: int, py: int, c: int|
            0 <= px < dest_w && 0 <= py < dest_h && 0 <= c < 3 ==> #[trigger] pixel_at(
                final(dest)@,
                dest_w as int,
                px,
                py,
                c,
            ) == if x <= px < x + overlay_extent(dest_w as int, x as int, top_w as int) && y <= py
                < y + overlay_extent(dest_h as int, y as int, top_h as int) {
                pixel_at(top@, top_w as int, px - x, py - y, c)
            } else {
                pixel_at(old(dest)@, dest_w as int, px, py, c)
            },
{
    let mut bottom: RgbImage = ImageBuffer::from_raw(dest_w, dest_h, std::mem::take(dest)).unwrap();
    let upper: RgbImage = ImageBuffer::from_raw(top_w, top_h, top).unwrap();
    image::imageops::replace(&mut bottom, &upper, x, y);
    *dest = bottom.into_raw();
}

/// Every pixel of a raster lies inside its bytes.
pub proof fn lemma_pixel_in_raster(width: int, height: int, x: int, y: int, c: int)
    requires
        0 <= x < width,
        0 <= y < height,
        0 <= c < 3,
    ensures
        0 <= (y * width + x) * 3 + c < width * height * 3,
{
    assert(0 <= y * width) by (nonlinear_arith)
        requires
            0 <= y,
            0 <= width,
    ;
    assert(y * width + x < height * width) by (nonlinear_arith)
        requires
            0 <= x < width,
            0 <= y < height,
    ;
    assert(height * width == width * height) by (nonlinear_arith);
}

} // verus!
