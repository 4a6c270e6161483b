//! Integer tile geometry: points, rectangles and the melee reach test.

use vstd::prelude::*;

verus! {

/// A tile coordinate.
#[derive(Clone, Copy, Debug, PartialEq, Eq, Structural)]
pub struct Point {
    pub x: i32,
    pub y: i32,
}

impl Point {
    pub fn new(x: i32, y: i32) -> (p: Point)
        ensures
            p.x == x,
            p.y == y,
    {
        Point { x, y }
    }
}

/// Half of `n`, rounded toward zero.
pub open spec fn half_toward_zero(n: int) -> int {
    if n >= 0 {
        n / 2
    } else {
        -((-n) / 2)
    }
}

/// The square of the Euclidean distance between two tiles.
pub open spec fn distance_squared(ax: int, ay: int, bx: int, by: int) -> int {
    (ax - bx) * (ax - bx) + (ay - by) * (ay - by)
}

/// Two tiles are within melee reach when their Euclidean distance is below
/// one and a half tiles: the same tile or one of its eight neighbours.
pub open spec fn within_melee_reach(ax: int, ay: int, bx: int, by: int) -> bool {
    4 * distance_squared(ax, ay, bx, by) < 9
}

/// Two tiles are at most one step apart along each axis.
pub open spec fn within_one_step(ax: int, ay: int, bx: int, by: int) -> bool {
    -1 <= ax - bx <= 1 && -1 <= ay - by <= 1
}

/// A distance below one and a half tiles is exactly a step of at most one
/// tile along each axis.
pub proof fn lemma_melee_reach_is_one_step(ax: int, ay: int, bx: int, by: int)
    ensures
        within_melee_reach(ax, ay, bx, by) <==> within_one_step(ax, ay, bx, by),
{
    let dx = ax - bx;
    let dy = ay - by;
    assert(dx * dx >= 0) by (nonlinear_arith);
    assert(dy * dy >= 0) by (nonlinear_arith);
    assert(dx >= 2 || dx <= -2 ==> dx * dx >= 4) by (nonlinear_arith);
    assert(dy >= 2 || dy <= -2 ==> dy * dy >= 4) by (nonlinear_arith);
    assert(-1 <= dx <= 1 ==> dx * dx <= 1) by (nonlinear_arith);
    assert(-1 <= dy <= 1 ==> dy * dy <= 1) by (nonlinear_arith);
}

/// Decides `within_melee_reach` for two tiles.
pub fn in_melee_reach(a: Point, b: Point) -> (near: bool)
    ensures
        near == within_melee_reach(a.x as int, a.y as int, b.x as int, b.y as int),
{
    proof {
        lemma_melee_reach_is_one_step(a.x as int, a.y as int, b.x as int, b.y as int);
    }
    let dx: i64 = a.x as i64 - b.x as i64;
    let dy: i64 = a.y as i64 - b.y as i64;
    -1 <= dx && dx <= 1 && -1 <= dy && dy <= 1
}

/// Whether `tiles` holds `p`.
pub fn holds_tile(tiles: &Vec<Point>, p: Point) -> (found: bool)
    ensures
        found == tiles@.contains(p),
{
    let mut k: usize = 0;
    while k < tiles.len()
        invariant
            k <= tiles.len(),
            forall|j: int| 0 <= j < k ==> tiles@[j] != p,
        decreases tiles.len() - k,
    {
        if tiles[k] == p {
            return true;
        }
        k += 1;
    }
    false
}

/// An axis-aligned rectangle given by two opposite corners.
#[derive(Clone, Copy, Debug, PartialEq, Eq, Structural)]
pub struct Rect {
    pub x1: i32,
    pub x2: i32,
    pub y1: i32,
    pub y2: i32,
}

impl Rect {
    /// The two rectangles share at least one point, edges included.
    pub open spec fn overlaps(&self, other: &Rect) -> bool {
        self.x1 <= other.x2 && self.x2 >= other.x1 && self.y1 <= other.y2 && self.y2 >= other.y1
    }

    /// Column of the middle of the rectangle.
    pub open spec fn center_x(&self) -> int {
        half_toward_zero(self.x1 + self.x2)
    }

    /// Row of the middle of the rectangle.
    pub open spec fn center_y(&self) -> int {
        half_toward_zero(self.y1 + self.y2)
    }

    /// The tile `(x, y)` lies in the part of the rectangle that is carved
    /// out as a room: everything but its top row and left column.
    pub open spec fn interior_contains(&self, x: int, y: int) -> bool {
        self.x1 < x <= self.x2 && self.y1 < y <= self.y2
    }

    /// The rectangle with corner `(x, y)`, `w` tiles wide and `h` tiles high.
    pub fn new(x: i32, y: i32, w: i32, h: i32) -> (r: Rect)
        requires
            i32::MIN <= x + w <= i32::MAX,
            i32::MIN <= y + h <= i32::MAX,
        ensures
            r.x1 == x,
            r.y1 == y,
            r.x2 == x + w,
            r.y2 == y + h,
    {
        Rect { x1: x, y1: y, x2: x + w, y2: y + h }
    }

    /// Whether the two rectangles overlap.
    pub fn intersect(&self, other: &Rect) -> (hit: bool)
        ensures
            hit == self.overlaps(other),
    {
        self.x1 <= other.x2 && self.x2 >= other.x1 && self.y1 <= other.y2 && self.y2 >= other.y1
    }

    /// The tile in the middle of the rectangle.
    pub fn center(&self) -> (c: (i32, i32))
        ensures
            c.0 == self.center_x(),
            c.1 == self.center_y(),
    {
        let sx: i64 = self.x1 as i64 + self.x2 as i64;
        let sy: i64 = self.y1 as i64 + self.y2 as i64;
        ((sx / 2) as i32, (sy / 2) as i32)
    }
}

} // verus!
