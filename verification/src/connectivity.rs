//! Walks over open tiles, and the layout that the room generator keeps:
//! every open tile can be walked to from the middle of the first room.

use crate::geometry::{Point, Rect};
use crate::map::{
    greater, in_column_tunnel, in_corridor, in_row_tunnel, is_open_tile, lesser, GameMap,
};
use vstd::prelude::*;

verus! {

/// The point with the given coordinates.
pub open spec fn point(x: int, y: int) -> Point {
    Point { x: x as i32, y: y as i32 }
}

/// The two tiles share an edge.
pub open spec fn side_by_side(a: Point, b: Point) -> bool {
    ||| a.x == b.x && (a.y - b.y == 1 || b.y - a.y == 1)
    ||| a.y == b.y && (a.x - b.x == 1 || b.x - a.x == 1)
}

/// The room is at least two tiles wide and high between its corners, so
/// that its middle lies in its interior.
pub open spec fn is_roomy(room: Rect) -> bool {
    room.x2 - room.x1 >= 2 && room.y2 - room.y1 >= 2
}

impl GameMap {
    /// The tile `(x, y)` lies on the map and is open.
    pub open spec fn is_open(&self, x: int, y: int) -> bool {
        self.in_bounds(x, y) && is_open_tile(self.tile_at(x, y))
    }

    /// `path` is a walk: it leads over open tiles only, each sharing an
    /// edge with the one before it.
    pub open spec fn is_walk(&self, path: Seq<Point>) -> bool {
        &&& path.len() > 0
        &&& forall|k: int|
            0 <= k < path.len() ==> self.is_open((#[trigger] path[k]).x as int, path[k].y as int)
        &&& forall|k: int| 0 < k < path.len() ==> side_by_side(path[k - 1], #[trigger] path[k])
    }

    /// A walk leads from `a` to `b`.
    pub open spec fn joined(&self, a: Point, b: Point) -> bool {
        exists|path: Seq<Point>| #[trigger]
            self.is_walk(path) && path.first() == a && path.last() == b
    }

    /// The middle of the first room, where the player starts.
    pub open spec fn start(&self) -> Point {
        point(self.rooms@[0].center_x(), self.rooms@[0].center_y())
    }

    /// Every tile of the room's interior is open.
    pub open spec fn room_is_dug(&self, room: Rect) -> bool {
        forall|x: int, y: int| room.interior_contains(x, y) ==> #[trigger] self.is_open(x, y)
    }

    /// The layout that the room generator keeps. Every room is roomy and
    /// dug out, and no two rooms overlap. While there is no room, no tile
    /// is open; from the first room on, a walk leads from the start to
    /// every open tile.
    pub open spec fn is_laid_out(&self) -> bool {
        &&& forall|k: int|
            0 <= k < self.rooms@.len() ==> is_roomy(#[trigger] self.rooms@[k]) && self.room_is_dug(
                self.rooms@[k],
            )
        &&& forall|j: int, k: int|
            #![trigger self.rooms@[j], self.rooms@[k]]
            0 <= j < k < self.rooms@.len() ==> !self.rooms@[j].overlaps(&self.rooms@[k])
        &&& self.rooms@.len() == 0 ==> forall|x: int, y: int| !#[trigger] self.is_open(x, y)
        &&& self.rooms@.len() > 0 ==> forall|x: int, y: int| #[trigger]
            self.is_open(x, y) ==> self.joined(self.start(), point(x, y))
    }

    /// A walk leads from an open tile to itself.
    pub proof fn lemma_joined_to_itself(&self, x: int, y: int)
        requires
            self.is_open(x, y),
            self.width <= i32::MAX,
            self.height <= i32::MAX,
        ensures
            self.joined(point(x, y), point(x, y)),
    {
        let path = seq![point(x, y)];
        assert(self.is_walk(path));
    }

    /// A walk from `a` to `b` goes on to an open tile `c` next to `b`.
    pub proof fn lemma_joined_one_further(&self, a: Point, b: Point, c: Point)
        requires
            self.joined(a, b),
            self.is_open(c.x as int, c.y as int),
            side_by_side(b, c),
        ensures
            self.joined(a, c),
    {
        let path = choose|path: Seq<Point>| #[trigger]
            self.is_walk(path) && path.first() == a && path.last() == b;
        let longer = path.push(c);
        assert(self.is_walk(longer));
    }

    /// A walk from `a` to `b` and a walk from `b` to `c` make a walk from
    /// `a` to `c`.
    pub proof fn lemma_joined_chain(&self, a: Point, b: Point, c: Point)
        requires
            self.joined(a, b),
            self.joined(b, c),
        ensures
            self.joined(a, c),
    {
        let first = choose|path: Seq<Point>| #[trigger]
            self.is_walk(path) && path.first() == a && path.last() == b;
        let second = choose|path: Seq<Point>| #[trigger]
            self.is_walk(path) && path.first() == b && path.last() == c;
        let whole = first + second.drop_first();
        assert(self.is_walk(whole));
    }

    /// A walk in `self` is a walk in every map of the same size that has
    /// every open tile of `self` open.
    pub proof fn lemma_joined_survives(&self, later: &GameMap, a: Point, b: Point)
        requires
            self.joined(a, b),
            later.width == self.width,
            later.height == self.height,
            forall|x: int, y: int| #[trigger] self.is_open(x, y) ==> later.is_open(x, y),
        ensures
            later.joined(a, b),
    {
        let path = choose|path: Seq<Point>| #[trigger]
            self.is_walk(path) && path.first() == a && path.last() == b;
        assert(later.is_walk(path));
    }

    /// Along a row of open tiles a walk leads from one end to the other.
    pub proof fn lemma_joined_along_row(&self, xa: int, xb: int, y: int)
        requires
            self.width <= i32::MAX,
            self.height <= i32::MAX,
            forall|x: int| lesser(xa, xb) <= x <= greater(xa, xb) ==> #[trigger] self.is_open(x, y),
        ensures
            self.joined(point(xa, y), point(xb, y)),
        decreases greater(xa, xb) - lesser(xa, xb),
    {
        assert(self.is_open(xb, y));
        if xa == xb {
            self.lemma_joined_to_itself(xa, y);
        } else {
            let xc = if xa < xb {
                xb - 1
            } else {
                xb + 1
            };
            self.lemma_joined_along_row(xa, xc, y);
            self.lemma_joined_one_further(point(xa, y), point(xc, y), point(xb, y));
        }
    }

    /// Along a column of open tiles a walk leads from one end to the
    /// other.
    pub proof fn lemma_joined_along_column(&self, ya: int, yb: int, x: int)
        requires
            self.width <= i32::MAX,
            self.height <= i32::MAX,
            forall|y: int| lesser(ya, yb) <= y <= greater(ya, yb) ==> #[trigger] self.is_open(x, y),
        ensures
            self.joined(point(x, ya), point(x, yb)),
        decreases greater(ya, yb) - lesser(ya, yb),
    {
        assert(self.is_open(x, yb));
        if ya == yb {
            self.lemma_joined_to_itself(x, ya);
        } else {
            let yc = if ya < yb {
                yb - 1
            } else {
                yb + 1
            };
            self.lemma_joined_along_column(ya, yc, x);
            self.lemma_joined_one_further(point(x, ya), point(x, yc), point(x, yb));
        }
    }

    /// In a room that is dug out, a walk leads from its middle to every
    /// tile of its interior.
    pub proof fn lemma_joined_within_room(&self, room: Rect, x: int, y: int)
        requires
            self.width <= i32::MAX,
            self.height <= i32::MAX,
            is_roomy(room),
            self.room_is_dug(room),
            room.interior_contains(x, y),
        ensures
            room.interior_contains(room.center_x(), room.center_y()),
            self.joined(point(room.center_x(), room.center_y()), point(x, y)),
    {
        let cx = room.center_x();
        let cy = room.center_y();
        self.lemma_joined_along_row(cx, x, cy);
        self.lemma_joined_along_column(cy, y, x);
        self.lemma_joined_chain(point(cx, cy), point(x, cy), point(x, y));
    }

    /// Where a bent corridor was dug from the tile `(px, py)` to the tile
    /// `(cx, cy)`, a walk leads from its start to each of its tiles and to
    /// its end.
    proof fn lemma_joined_along_corridor(
        &self,
        px: int,
        py: int,
        cx: int,
        cy: int,
        horizontal_first: bool,
    )
        requires
            self.in_bounds(px, py),
            self.in_bounds(cx, cy),
            forall|x: int, y: int|
                self.in_bounds(x, y) && in_corridor(px, py, cx, cy, horizontal_first, x, y)
                    ==> #[trigger] self.is_open(x, y),
        ensures
            self.joined(point(px, py), point(cx, cy)),
            forall|x: int, y: int|
                self.in_bounds(x, y) && in_corridor(px, py, cx, cy, horizontal_first, x, y)
                    ==> self.joined(point(px, py), #[trigger] point(x, y)),
    {
        if horizontal_first {
            // The row at `py` from `px` to `cx`, then the column at `cx`.
            self.lemma_joined_along_row(px, cx, py);
            self.lemma_joined_along_column(py, cy, cx);
            self.lemma_joined_chain(point(px, py), point(cx, py), point(cx, cy));
            assert forall|x: int, y: int|
                self.in_bounds(x, y) && in_corridor(
                    px,
                    py,
                    cx,
                    cy,
                    horizontal_first,
                    x,
                    y,
                ) implies self.joined(point(px, py), #[trigger] point(x, y)) by {
                if in_row_tunnel(px, cx, py, x, y) {
                    self.lemma_joined_along_row(px, x, py);
                } else {
                    self.lemma_joined_along_column(py, y, cx);
                    self.lemma_joined_chain(point(px, py), point(cx, py), point(x, y));
                }
            }
        } else {
            // The column at `px` from `py` to `cy`, then the row at `cy`.
            self.lemma_joined_along_column(py, cy, px);
            self.lemma_joined_along_row(px, cx, cy);
            self.lemma_joined_chain(point(px, py), point(px, cy), point(cx, cy));
            assert forall|x: int, y: int|
                self.in_bounds(x, y) && in_corridor(
                    px,
                    py,
                    cx,
                    cy,
                    horizontal_first,
                    x,
                    y,
                ) implies self.joined(point(px, py), #[trigger] point(x, y)) by {
                if in_column_tunnel(py, cy, px, x, y) {
                    self.lemma_joined_along_column(py, y, px);
                } else {
                    self.lemma_joined_along_row(px, x, cy);
                    self.lemma_joined_chain(point(px, py), point(px, cy), point(x, y));
                }
            }
        }
    }

    /// Adding a roomy room that overlaps no other keeps the layout:
    /// `self` is the map before and `after` the map with the room added.
    pub proof fn lemma_adding_room_keeps_layout(
        &self,
        after: &GameMap,
        room: Rect,
        horizontal_first: bool,
    )
        requires
            self.wf(),
            self.is_laid_out(),
            self.room_fits(room),
            is_roomy(room),
            !self.room_is_taken(room),
            after.has_added(self, room, horizontal_first),
        ensures
            after.is_laid_out(),
    {
        let cx = room.center_x();
        let cy = room.center_y();
        assert forall|x: int, y: int| #[trigger] self.is_open(x, y) implies after.is_open(x, y) by {
            // Naming the tile brings in what the digging says of it.
            let t = after.tile_at(x, y);
        }
        assert(after.room_is_dug(room)) by {
            assert forall|x: int, y: int| room.interior_contains(x, y) implies #[trigger] after.is_open(
                x,
                y,
            ) by {
                // Naming the tile brings in what the digging says of it.
                let t = after.tile_at(x, y);
            }
        }
        assert forall|k: int| 0 <= k < after.rooms@.len() implies is_roomy(
            #[trigger] after.rooms@[k],
        ) && after.room_is_dug(after.rooms@[k]) by {
            if k < self.rooms@.len() {
                assert forall|x: int, y: int| self.rooms@[k].interior_contains(x, y) implies #[trigger] after.is_open(
                    x,
                    y,
                ) by {
                    assert(self.is_open(x, y));
                }
            }
        }
        if self.rooms@.len() == 0 {
            assert forall|x: int, y: int| #[trigger] after.is_open(x, y) implies after.joined(
                after.start(),
                point(x, y),
            ) by {
                // Naming the tile brings in what the digging says of it.
                let t = after.tile_at(x, y);
                assert(!self.is_open(x, y));
                after.lemma_joined_within_room(room, x, y);
            }
        } else {
            let previous = self.rooms@.last();
            let px = previous.center_x();
            let py = previous.center_y();
            assert(self.is_open(px, py));
            self.lemma_joined_survives(after, self.start(), point(px, py));
            assert forall|x: int, y: int|
                after.in_bounds(x, y) && in_corridor(
                    px,
                    py,
                    cx,
                    cy,
                    horizontal_first,
                    x,
                    y,
                ) implies #[trigger] after.is_open(x, y) by {
                // Naming the tile brings in what the digging says of it.
                let t = after.tile_at(x, y);
            }
            after.lemma_joined_along_corridor(px, py, cx, cy, horizontal_first);
            after.lemma_joined_chain(after.start(), point(px, py), point(cx, cy));
            assert forall|x: int, y: int| #[trigger] after.is_open(x, y) implies after.joined(
                after.start(),
                point(x, y),
            ) by {
                // Naming the tile brings in what the digging says of it.
                let t = after.tile_at(x, y);
                if self.is_open(x, y) {
                    self.lemma_joined_survives(after, self.start(), point(x, y));
                } else if room.interior_contains(x, y) {
                    after.lemma_joined_within_room(room, x, y);
                    after.lemma_joined_chain(after.start(), point(cx, cy), point(x, y));
                } else {
                    after.lemma_joined_chain(after.start(), point(px, py), point(x, y));
                }
            }
        }
    }

    /// The layout depends only on which tiles are open, on the rooms and
    /// on the size of the map.
    pub proof fn lemma_layout_carries_over(&self, other: &GameMap)
        requires
            self.is_laid_out(),
            forall|x: int, y: int| self.is_open(x, y) == other.is_open(x, y),
            other.rooms@ == self.rooms@,
            other.width == self.width,
            other.height == self.height,
        ensures
            other.is_laid_out(),
    {
        if self.rooms@.len() == 0 {
        } else {
            assert forall|x: int, y: int| #[trigger] other.is_open(x, y) implies other.joined(
                other.start(),
                point(x, y),
            ) by {
                self.lemma_joined_survives(other, self.start(), point(x, y));
            }
        }
    }

    /// A walk leads from `start`, an open tile, to every open tile.
    pub open spec fn is_connected_from(&self, start: Point) -> bool {
        &&& self.is_open(start.x as int, start.y as int)
        &&& forall|x: int, y: int| #[trigger]
            self.is_open(x, y) ==> self.joined(start, point(x, y))
    }

    /// A laid-out map with a room is connected from its start.
    pub proof fn lemma_laid_out_is_connected(&self)
        requires
            self.wf(),
            self.is_laid_out(),
            self.rooms@.len() > 0,
        ensures
            self.is_connected_from(self.start()),
    {
        let first = self.rooms@[0];
        assert(is_roomy(first) && self.room_is_dug(first));
        assert(self.is_open(first.center_x(), first.center_y()));
    }
}

} // verus!
