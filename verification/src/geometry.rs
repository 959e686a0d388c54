//! Plain tile-grid geometry: points and the squared-distance test the melee
//! range check is built on.

use vstd::prelude::*;

verus! {

/// A tile coordinate on the map grid.
#[derive(Clone, Copy, Debug, PartialEq, Eq, Structural)]
pub struct Point {
    pub x: i32,
    pub y: i32,
}

impl Point {
    pub fn new(x: i32, y: i32) -> (r: Point)
        ensures
            r.x == x,
            r.y == y,
    {
        Point { x, y }
    }

    pub fn zero() -> (r: Point)
        ensures
            r.x == 0,
            r.y == 0,
    {
        Point { x: 0, y: 0 }
    }
}

/// The squared Euclidean distance between two points, as a mathematical integer.
pub open spec fn dist2(a: Point, b: Point) -> int {
    (a.x - b.x) * (a.x - b.x) + (a.y - b.y) * (a.y - b.y)
}

/// Whether `a` is within melee reach of `b`: Euclidean distance below one and a
/// half tile units, which for integer tile coordinates is exactly a squared
/// distance of at most two.
pub open spec fn in_melee_range(a: Point, b: Point) -> bool {
    dist2(a, b) <= 2
}

/// Executable melee-range test; overflow-free because it only compares small
/// coordinate differences, rejecting any pair further than one tile apart on
/// either axis first.
pub fn melee_range(a: Point, b: Point) -> (r: bool)
    ensures
        r == in_melee_range(a, b),
{
    let dx_big: i64 = (a.x as i64) - (b.x as i64);
    let dy_big: i64 = (a.y as i64) - (b.y as i64);
    if dx_big >= -1 && dx_big <= 1 && dy_big >= -1 && dy_big <= 1 {
        proof {
            assert(dist2(a, b) <= 2) by (nonlinear_arith)
                requires
                    dx_big == a.x - b.x,
                    dy_big == a.y - b.y,
                    -1 <= dx_big <= 1,
                    -1 <= dy_big <= 1,
            ;
        }
        true
    } else {
        proof {
            assert(dist2(a, b) > 2) by (nonlinear_arith)
                requires
                    dx_big == a.x - b.x,
                    dy_big == a.y - b.y,
                    dx_big < -1 || dx_big > 1 || dy_big < -1 || dy_big > 1,
            ;
        }
        false
    }
}

} // verus!
