//! The integer rules of the island generator: its height constants, the
//! centre and the rim of a square map, and squared distances between cells.

use vstd::prelude::*;

verus! {

/// Heights are scaled to lie below this value.
pub const HEIGHTMAP_RANGE: u8 = 100;

/// Heights from here up are hills and mountains.
pub const CUTOFF_TERRAIN: u8 = 80;

/// Heights below this are water.
pub const CUTOFF_WATER: u8 = 50;

/// The least distance from the coast at which a river may start.
pub const RIVER_START_MIN_DIST: u8 = 5;

/// The cell taken as the centre of a square map of `cells` by `cells`.
pub fn map_center(cells: u32) -> (c: u32)
    requires
        cells >= 2,
    ensures
        c == cells / 2 - 1,
        c < cells,
{
    (cells / 2) - 1
}

/// Whether `(x, y)` lies on the outer rim of a square map of `cells` by
/// `cells`, where the generator always puts water.
pub fn is_map_edge(x: u32, y: u32, cells: u32) -> (r: bool)
    requires
        cells >= 1,
    ensures
        r == (x == 0 || y == 0 || x == cells - 1 || y == cells - 1),
{
    x == 0 || y == 0 || x == cells - 1 || y == cells - 1
}

/// The squared distance between the cells `(x1, y1)` and `(x2, y2)`.
pub open spec fn spec_squared_distance(x1: int, y1: int, x2: int, y2: int) -> int {
    (x1 - x2) * (x1 - x2) + (y1 - y2) * (y1 - y2)
}

/// The squared distance between two cells, in 32-bit arithmetic as the
/// generator computes it before taking the square root.
pub fn squared_distance(x1: i32, y1: i32, x2: i32, y2: i32) -> (d: i32)
    requires
        i32::MIN <= x1 - x2 <= i32::MAX,
        i32::MIN <= y1 - y2 <= i32::MAX,
        (x1 - x2) * (x1 - x2) + (y1 - y2) * (y1 - y2) <= i32::MAX,
    ensures
        d == (x1 - x2) * (x1 - x2) + (y1 - y2) * (y1 - y2),
        d == spec_squared_distance(x1 as int, y1 as int, x2 as int, y2 as int),
        d >= 0,
{
    let a: i32 = x1 - x2;
    let b: i32 = y1 - y2;
    assert(0 <= a * a && 0 <= b * b) by (nonlinear_arith);
    a * a + b * b
}

/// The squared distance is symmetric, does not change when the two axes
/// swap roles, is the square of the offset between cells on one line, and is
/// zero exactly between a cell and itself.
pub proof fn lemma_squared_distance(x1: int, y1: int, x2: int, y2: int)
    ensures
        spec_squared_distance(x1, y1, x2, y2) == spec_squared_distance(y1, x1, y2, x2),
        spec_squared_distance(x1, y1, x2, y1) == (x1 - x2) * (x1 - x2),
        spec_squared_distance(x1, y1, x1, y2) == (y1 - y2) * (y1 - y2),
        spec_squared_distance(x1, y1, x2, y2) == spec_squared_distance(x2, y2, x1, y1),
        spec_squared_distance(x1, y1, x2, y2) >= 0,
        spec_squared_distance(x1, y1, x2, y2) == 0 <==> (x1 == x2 && y1 == y2),
{
    let a = x1 - x2;
    let b = y1 - y2;
    assert((x2 - x1) * (x2 - x1) == a * a) by (nonlinear_arith)
        requires
            a == x1 - x2,
    ;
    assert((y2 - y1) * (y2 - y1) == b * b) by (nonlinear_arith)
        requires
            b == y1 - y2,
    ;
    assert(a * a >= 0 && b * b >= 0) by (nonlinear_arith);
    assert(a * a == 0 <==> a == 0) by (nonlinear_arith);
    assert(b * b == 0 <==> b == 0) by (nonlinear_arith);
}

} // verus!
