//! The tile map: its grid, the flags derived from it and the index of who
//! stands where.

use crate::components::Entity;
use crate::geometry::Rect;
use crate::random::random_range;
use vstd::prelude::*;

verus! {

/// Width of a generated level, in tiles.
pub const MAP_WIDTH: i32 = 60;

/// Height of a generated level, in tiles.
pub const MAP_HEIGHT: i32 = 40;

/// How many rooms the generator tries to place.
pub const MAX_ROOMS: i32 = 30;

/// The least width and height of a room.
pub const MIN_SIZE: i32 = 6;

/// The bound that the width and height of a room stay below.
pub const MAX_SIZE: i32 = 10;

/// What a tile is made of.
#[derive(PartialEq, Eq, Structural, Copy, Clone, Debug)]
pub enum TileType {
    Wall,
    Floor,
    DownStairs,
}

/// A tile that can be walked on and seen through: anything but a wall.
pub open spec fn is_open_tile(tile: TileType) -> bool {
    tile != TileType::Wall
}

/// The dungeon level. All grids are row-major and hold one entry per tile.
pub struct GameMap {
    /// The tiles were changed since the derived flags were last computed.
    pub dirty: bool,
    pub tiles: Vec<TileType>,
    /// The rooms the generator placed, in the order it placed them.
    pub rooms: Vec<Rect>,
    pub width: i32,
    pub height: i32,
    /// How deep in the dungeon the level lies; the first level has depth 1.
    pub depth: i32,
    /// Tiles the player has seen at some time.
    pub revealed_tiles: Vec<bool>,
    /// Tiles the player sees now.
    pub visible_tiles: Vec<bool>,
    /// Tiles an entity may step on now.
    pub is_walkable: Vec<bool>,
    /// Tiles that do not block sight.
    pub is_transparent: Vec<bool>,
    /// The entities standing on each tile.
    pub tile_content: Vec<Vec<Entity>>,
}

impl GameMap {
    /// Number of tiles.
    pub open spec fn area(&self) -> int {
        self.width * self.height
    }

    /// `(x, y)` is a tile of the map.
    pub open spec fn in_bounds(&self, x: int, y: int) -> bool {
        0 <= x < self.width && 0 <= y < self.height
    }

    /// Place of tile `(x, y)` in the grids.
    pub open spec fn tile_index(&self, x: int, y: int) -> int {
        y * self.width + x
    }

    /// The tile at `(x, y)`.
    pub open spec fn tile_at(&self, x: int, y: int) -> TileType {
        self.tiles@[self.tile_index(x, y)]
    }

    /// The room lies within the map.
    pub open spec fn room_fits(&self, room: Rect) -> bool {
        0 <= room.x1 <= room.x2 < self.width && 0 <= room.y1 <= room.y2 < self.height
    }

    /// Every grid has one entry per tile and every room lies within the map.
    pub open spec fn wf(&self) -> bool {
        &&& 0 < self.width
        &&& 0 < self.height
        &&& self.tiles@.len() == self.area()
        &&& self.revealed_tiles@.len() == self.area()
        &&& self.visible_tiles@.len() == self.area()
        &&& self.is_walkable@.len() == self.area()
        &&& self.is_transparent@.len() == self.area()
        &&& self.tile_content@.len() == self.area()
        &&& forall|k: int| 0 <= k < self.rooms@.len() ==> self.room_fits(#[trigger] self.rooms@[k])
    }

    /// The walkable and transparent flags say exactly which tiles are open.
    pub open spec fn flags_follow_tiles(&self) -> bool {
        &&& forall|i: int|
            0 <= i < self.area() ==> #[trigger] self.is_walkable@[i] == is_open_tile(self.tiles@[i])
        &&& forall|i: int|
            0 <= i < self.area() ==> #[trigger] self.is_transparent@[i] == is_open_tile(
                self.tiles@[i],
            )
    }

    /// Every tile in bounds has a place in the grids, from which its
    /// column and row can be read off again.
    pub proof fn lemma_tile_index(&self, x: int, y: int)
        requires
            0 < self.width,
            0 < self.height,
            self.in_bounds(x, y),
        ensures
            0 <= self.tile_index(x, y) < self.area(),
            self.tile_index(x, y) % (self.width as int) == x,
            self.tile_index(x, y) / (self.width as int) == y,
    {
        let w = self.width as int;
        let h = self.height as int;
        assert(y * w + x < w * h) by (nonlinear_arith)
            requires
                0 <= x < w,
                0 <= y < h,
        ;
        assert(0 <= y * w + x) by (nonlinear_arith)
            requires
                0 <= x,
                0 <= y,
                0 < w,
        ;
        vstd::arithmetic::div_mod::lemma_fundamental_div_mod_converse(y * w + x, w, y, x);
    }

    /// A map of the given size that is solid wall, with nothing seen and
    /// nobody on it.
    pub fn new(width: i32, height: i32) -> (map: GameMap)
        requires
            0 < width,
            0 < height,
            width * height <= usize::MAX,
        ensures
            map.wf(),
            map.width == width,
            map.height == height,
            map.depth == 1,
            map.dirty,
            map.rooms@.len() == 0,
            forall|i: int| 0 <= i < map.area() ==> #[trigger] map.tiles@[i] == TileType::Wall,
            forall|i: int| 0 <= i < map.area() ==> !#[trigger] map.revealed_tiles@[i],
            forall|i: int| 0 <= i < map.area() ==> !#[trigger] map.visible_tiles@[i],
            forall|i: int| 0 <= i < map.area() ==> !#[trigger] map.is_walkable@[i],
            forall|i: int| 0 <= i < map.area() ==> !#[trigger] map.is_transparent@[i],
            forall|i: int| 0 <= i < map.area() ==> (#[trigger] map.tile_content@[i])@.len() == 0,
    {
        assert(width * height >= 0) by (nonlinear_arith)
            requires
                0 < width,
                0 < height,
        ;
        let count: usize = width as usize * height as usize;
        let mut tiles: Vec<TileType> = Vec::new();
        let mut revealed_tiles: Vec<bool> = Vec::new();
        let mut visible_tiles: Vec<bool> = Vec::new();
        let mut is_walkable: Vec<bool> = Vec::new();
        let mut is_transparent: Vec<bool> = Vec::new();
        let mut tile_content: Vec<Vec<Entity>> = Vec::new();
        let mut i: usize = 0;
        while i < count
            invariant
                i <= count,
                tiles@.len() == i,
                revealed_tiles@.len() == i,
                visible_tiles@.len() == i,
                is_walkable@.len() == i,
                is_transparent@.len() == i,
                tile_content@.len() == i,
                forall|j: int| 0 <= j < i ==> #[trigger] tiles@[j] == TileType::Wall,
                forall|j: int| 0 <= j < i ==> !#[trigger] revealed_tiles@[j],
                forall|j: int| 0 <= j < i ==> !#[trigger] visible_tiles@[j],
                forall|j: int| 0 <= j < i ==> !#[trigger] is_walkable@[j],
                forall|j: int| 0 <= j < i ==> !#[trigger] is_transparent@[j],
                forall|j: int| 0 <= j < i ==> (#[trigger] tile_content@[j])@.len() == 0,
            decreases count - i,
        {
            tiles.push(TileType::Wall);
            revealed_tiles.push(false);
            visible_tiles.push(false);
            is_walkable.push(false);
            is_transparent.push(false);
            tile_content.push(Vec::new());
            i += 1;
        }
        GameMap {
            dirty: true,
            tiles,
            rooms: Vec::new(),
            width,
            height,
            depth: 1,
            revealed_tiles,
            visible_tiles,
            is_walkable,
            is_transparent,
            tile_content,
        }
    }

    /// Whether the map is well formed.
    pub fn is_well_formed(&self) -> (good: bool)
        ensures
            good == self.wf(),
    {
        if self.width <= 0 || self.height <= 0 {
            return false;
        }
        assert(self.width * self.height <= 0x7fff_ffff * 0x7fff_ffff) by (nonlinear_arith)
            requires
                0 < self.width <= 0x7fff_ffff,
                0 < self.height <= 0x7fff_ffff,
        ;
        let area: u64 = self.width as u64 * self.height as u64;
        if self.tiles.len() as u64 != area || self.revealed_tiles.len() as u64 != area
            || self.visible_tiles.len() as u64 != area || self.is_walkable.len() as u64 != area
            || self.is_transparent.len() as u64 != area || self.tile_content.len() as u64 != area {
            return false;
        }
        let mut k: usize = 0;
        while k < self.rooms.len()
            invariant
                k <= self.rooms@.len(),
                forall|j: int| 0 <= j < k ==> self.room_fits(#[trigger] self.rooms@[j]),
            decreases self.rooms@.len() - k,
        {
            let room = self.rooms[k];
            if !(0 <= room.x1 && room.x1 <= room.x2 && room.x2 < self.width && 0 <= room.y1
                && room.y1 <= room.y2 && room.y2 < self.height) {
                return false;
            }
            k += 1;
        }
        true
    }

    /// Whether `(x, y)` is a tile of the map.
    pub fn contains(&self, x: i32, y: i32) -> (inside: bool)
        ensures
            inside == self.in_bounds(x as int, y as int),
    {
        0 <= x && x < self.width && 0 <= y && y < self.height
    }

    /// Place of tile `(x, y)` in the grids.
    pub fn xy_idx(&self, x: i32, y: i32) -> (idx: usize)
        requires
            self.wf(),
            self.in_bounds(x as int, y as int),
        ensures
            idx == self.tile_index(x as int, y as int),
            idx < self.area(),
    {
        let count: usize = self.tiles.len();
        proof {
            self.lemma_tile_index(x as int, y as int);
            assert(0 <= y * self.width) by (nonlinear_arith)
                requires
                    0 <= y,
                    0 < self.width,
            ;
            assert(y * self.width <= self.tile_index(x as int, y as int) < count);
        }
        (y as usize * self.width as usize) + x as usize
    }

    /// Derives the walkable and transparent flags from the tiles alone:
    /// a wall is neither, every other tile is both.
    pub fn recompute_map(&mut self)
        requires
            old(self).wf(),
        ensures
            final(self).wf(),
            final(self).flags_follow_tiles(),
            final(self).dirty == old(self).dirty,
            final(self).tiles == old(self).tiles,
            final(self).rooms == old(self).rooms,
            final(self).width == old(self).width,
            final(self).height == old(self).height,
            final(self).depth == old(self).depth,
            final(self).revealed_tiles == old(self).revealed_tiles,
            final(self).visible_tiles == old(self).visible_tiles,
            final(self).tile_content == old(self).tile_content,
    {
        let count: usize = self.tiles.len();
        let mut idx: usize = 0;
        while idx < count
            invariant
                idx <= count,
                count == self.area(),
                self.wf(),
                self.dirty == old(self).dirty,
                self.tiles == old(self).tiles,
                self.rooms == old(self).rooms,
                self.width == old(self).width,
                self.height == old(self).height,
                self.depth == old(self).depth,
                self.revealed_tiles == old(self).revealed_tiles,
                self.visible_tiles == old(self).visible_tiles,
                self.tile_content == old(self).tile_content,
                forall|i: int|
                    0 <= i < idx ==> #[trigger] self.is_walkable@[i] == is_open_tile(self.tiles@[i]),
                forall|i: int|
                    0 <= i < idx ==> #[trigger] self.is_transparent@[i] == is_open_tile(
                        self.tiles@[i],
                    ),
            decreases count - idx,
        {
            match self.tiles[idx] {
                TileType::Wall => {
                    self.is_walkable[idx] = false;
                    self.is_transparent[idx] = false;
                },
                _ => {
                    self.is_walkable[idx] = true;
                    self.is_transparent[idx] = true;
                },
            }
            idx += 1;
        }
    }
}

/// The smaller of two numbers.
pub open spec fn lesser(a: int, b: int) -> int {
    if a <= b {
        a
    } else {
        b
    }
}

/// The larger of two numbers.
pub open spec fn greater(a: int, b: int) -> int {
    if a >= b {
        a
    } else {
        b
    }
}

/// The tile `(x, y)` lies on the tunnel along row `row` between the
/// columns `xa` and `xb`, both ends included.
pub open spec fn in_row_tunnel(xa: int, xb: int, row: int, x: int, y: int) -> bool {
    y == row && lesser(xa, xb) <= x <= greater(xa, xb)
}

/// The tile `(x, y)` lies on the tunnel along column `column` between the
/// rows `ya` and `yb`, both ends included.
pub open spec fn in_column_tunnel(ya: int, yb: int, column: int, x: int, y: int) -> bool {
    x == column && lesser(ya, yb) <= y <= greater(ya, yb)
}

/// The tile `(x, y)` is dug by the bent corridor from `(from_x, from_y)`
/// to `(to_x, to_y)`: along the row first and then the column, or the
/// other way round.
pub open spec fn in_corridor(
    from_x: int,
    from_y: int,
    to_x: int,
    to_y: int,
    horizontal_first: bool,
    x: int,
    y: int,
) -> bool {
    if horizontal_first {
        in_row_tunnel(from_x, to_x, from_y, x, y) || in_column_tunnel(from_y, to_y, to_x, x, y)
    } else {
        in_column_tunnel(from_y, to_y, from_x, x, y) || in_row_tunnel(from_x, to_x, to_y, x, y)
    }
}

impl GameMap {
    /// `self` has the grids' sizes and all but the tiles from `before`.
    pub open spec fn same_but_tiles(&self, before: &GameMap) -> bool {
        &&& self.dirty == before.dirty
        &&& self.rooms == before.rooms
        &&& self.width == before.width
        &&& self.height == before.height
        &&& self.depth == before.depth
        &&& self.tiles@.len() == before.tiles@.len()
        &&& self.revealed_tiles == before.revealed_tiles
        &&& self.visible_tiles == before.visible_tiles
        &&& self.is_walkable == before.is_walkable
        &&& self.is_transparent == before.is_transparent
        &&& self.tile_content == before.tile_content
    }

    /// The room overlaps one of the rooms of the map.
    pub open spec fn room_is_taken(&self, room: Rect) -> bool {
        exists|k: int| 0 <= k < self.rooms@.len() && room.overlaps(&#[trigger] self.rooms@[k])
    }

    /// Adding `room` digs the tile `(x, y)`: it lies in the room's
    /// interior or, if the map has rooms already, in the corridor from the
    /// middle of the last of them to the middle of `room`.
    pub open spec fn dug_for(&self, room: Rect, horizontal_first: bool, x: int, y: int) -> bool {
        ||| room.interior_contains(x, y)
        ||| (self.rooms@.len() > 0 && in_corridor(
            self.rooms@.last().center_x(),
            self.rooms@.last().center_y(),
            room.center_x(),
            room.center_y(),
            horizontal_first,
            x,
            y,
        ))
    }

    /// `self` is `before` with `room` added: the room is the last of its
    /// rooms, the tiles dug for it are floor, and nothing else differs.
    pub open spec fn has_added(&self, before: &GameMap, room: Rect, horizontal_first: bool) -> bool {
        &&& self.dirty == before.dirty
        &&& self.rooms@ == before.rooms@.push(room)
        &&& self.width == before.width
        &&& self.height == before.height
        &&& self.depth == before.depth
        &&& self.tiles@.len() == before.tiles@.len()
        &&& self.revealed_tiles == before.revealed_tiles
        &&& self.visible_tiles == before.visible_tiles
        &&& self.is_walkable == before.is_walkable
        &&& self.is_transparent == before.is_transparent
        &&& self.tile_content == before.tile_content
        &&& forall|x: int, y: int|
            before.in_bounds(x, y) ==> #[trigger] self.tile_at(x, y) == (if before.dug_for(
                room,
                horizontal_first,
                x,
                y,
            ) {
                TileType::Floor
            } else {
                before.tile_at(x, y)
            })
    }

    /// Two tiles in bounds with the same place in the grids are the same
    /// tile.
    pub proof fn lemma_tile_index_is_injective(&self, xa: int, ya: int, xb: int, yb: int)
        requires
            0 < self.width,
            0 < self.height,
            self.in_bounds(xa, ya),
            self.in_bounds(xb, yb),
            self.tile_index(xa, ya) == self.tile_index(xb, yb),
        ensures
            xa == xb,
            ya == yb,
    {
        self.lemma_tile_index(xa, ya);
        self.lemma_tile_index(xb, yb);
    }

    /// Setting the tile `(x, y)` changes that tile and no other.
    proof fn lemma_tile_set(&self, before: &GameMap, x: int, y: int, tile: TileType)
        requires
            before.wf(),
            before.in_bounds(x, y),
            self.width == before.width,
            self.height == before.height,
            self.tiles@ == before.tiles@.update(before.tile_index(x, y), tile),
        ensures
            forall|tx: int, ty: int|
                before.in_bounds(tx, ty) ==> #[trigger] self.tile_at(tx, ty) == (if tx == x && ty
                    == y {
                    tile
                } else {
                    before.tile_at(tx, ty)
                }),
    {
        assert forall|tx: int, ty: int| before.in_bounds(tx, ty) implies #[trigger] self.tile_at(
            tx,
            ty,
        ) == (if tx == x && ty == y {
            tile
        } else {
            before.tile_at(tx, ty)
        }) by {
            before.lemma_tile_index(tx, ty);
            before.lemma_tile_index(x, y);
            if before.tile_index(tx, ty) == before.tile_index(x, y) {
                before.lemma_tile_index_is_injective(tx, ty, x, y);
            }
        }
    }

    /// Digs out the interior of the room.
    fn apply_room_to_map(&mut self, room: &Rect)
        requires
            old(self).wf(),
            old(self).room_fits(*room),
        ensures
            final(self).wf(),
            final(self).same_but_tiles(old(self)),
            forall|x: int, y: int|
                old(self).in_bounds(x, y) ==> #[trigger] final(self).tile_at(x, y) == (
                if room.interior_contains(x, y) {
                    TileType::Floor
                } else {
                    old(self).tile_at(x, y)
                }),
    {
        let mut y: i32 = room.y1 + 1;
        while y <= room.y2
            invariant
                room.y1 < y <= room.y2 + 1,
                old(self).wf(),
                old(self).room_fits(*room),
                self.wf(),
                self.same_but_tiles(old(self)),
                forall|tx: int, ty: int|
                    old(self).in_bounds(tx, ty) ==> #[trigger] self.tile_at(tx, ty) == (
                    if room.interior_contains(tx, ty) && ty < y {
                        TileType::Floor
                    } else {
                        old(self).tile_at(tx, ty)
                    }),
            decreases room.y2 + 1 - y,
        {
            let mut x: i32 = room.x1 + 1;
            while x <= room.x2
                invariant
                    room.x1 < x <= room.x2 + 1,
                    room.y1 < y <= room.y2,
                    old(self).wf(),
                    old(self).room_fits(*room),
                    self.wf(),
                    self.same_but_tiles(old(self)),
                    forall|tx: int, ty: int|
                        old(self).in_bounds(tx, ty) ==> #[trigger] self.tile_at(tx, ty) == (
                        if room.interior_contains(tx, ty) && (ty < y || (ty == y && tx < x)) {
                            TileType::Floor
                        } else {
                            old(self).tile_at(tx, ty)
                        }),
                decreases room.x2 + 1 - x,
            {
                let ghost before = *self;
                let idx = self.xy_idx(x, y);
                self.tiles[idx] = TileType::Floor;
                proof {
                    self.lemma_tile_set(&before, x as int, y as int, TileType::Floor);
                }
                x += 1;
            }
            y += 1;
        }
    }

    /// Digs a tunnel along row `y` between the columns `x1` and `x2`, as
    /// far as it lies on the map: an end beyond the edge is cut off there,
    /// and a row that is not on the map is not dug at all.
    fn apply_horizontal_tunnel(&mut self, x1: i32, x2: i32, y: i32)
        requires
            old(self).wf(),
        ensures
            final(self).wf(),
            final(self).same_but_tiles(old(self)),
            forall|tx: int, ty: int|
                old(self).in_bounds(tx, ty) ==> #[trigger] final(self).tile_at(tx, ty) == (
                if in_row_tunnel(x1 as int, x2 as int, y as int, tx, ty) {
                    TileType::Floor
                } else {
                    old(self).tile_at(tx, ty)
                }),
    {
        if y < 0 || y >= self.height {
            return ;
        }
        let low: i32 = if x1 <= x2 {
            x1
        } else {
            x2
        };
        let high: i32 = if x1 <= x2 {
            x2
        } else {
            x1
        };
        let first: i32 = if low < 0 {
            0
        } else {
            low
        };
        let last: i32 = if high >= self.width {
            self.width - 1
        } else {
            high
        };
        let count: usize = self.tiles.len();
        let mut x: i32 = first;
        while x <= last
            invariant
                low == lesser(x1 as int, x2 as int),
                high == greater(x1 as int, x2 as int),
                first == greater(low as int, 0),
                last == lesser(high as int, self.width - 1),
                first <= x,
                0 <= y < self.height,
                old(self).wf(),
                self.wf(),
                count == self.area(),
                self.same_but_tiles(old(self)),
                forall|tx: int, ty: int|
                    old(self).in_bounds(tx, ty) ==> #[trigger] self.tile_at(tx, ty) == (
                    if in_row_tunnel(x1 as int, x2 as int, y as int, tx, ty) && tx < x {
                        TileType::Floor
                    } else {
                        old(self).tile_at(tx, ty)
                    }),
            decreases last + 1 - x,
        {
            let ghost before = *self;
            let idx = self.xy_idx(x, y);
            if idx < count {
                self.tiles[idx] = TileType::Floor;
                proof {
                    self.lemma_tile_set(&before, x as int, y as int, TileType::Floor);
                }
            }
            x += 1;
        }
    }

    /// Digs a tunnel along column `x` between the rows `y1` and `y2`, as
    /// far as it lies on the map: an end beyond the edge is cut off there,
    /// and a column that is not on the map is not dug at all.
    fn apply_vertical_tunnel(&mut self, y1: i32, y2: i32, x: i32)
        requires
            old(self).wf(),
        ensures
            final(self).wf(),
            final(self).same_but_tiles(old(self)),
            forall|tx: int, ty: int|
                old(self).in_bounds(tx, ty) ==> #[trigger] final(self).tile_at(tx, ty) == (
                if in_column_tunnel(y1 as int, y2 as int, x as int, tx, ty) {
                    TileType::Floor
                } else {
                    old(self).tile_at(tx, ty)
                }),
    {
        if x < 0 || x >= self.width {
            return ;
        }
        let low: i32 = if y1 <= y2 {
            y1
        } else {
            y2
        };
        let high: i32 = if y1 <= y2 {
            y2
        } else {
            y1
        };
        let first: i32 = if low < 0 {
            0
        } else {
            low
        };
        let last: i32 = if high >= self.height {
            self.height - 1
        } else {
            high
        };
        let count: usize = self.tiles.len();
        let mut y: i32 = first;
        while y <= last
            invariant
                low == lesser(y1 as int, y2 as int),
                high == greater(y1 as int, y2 as int),
                first == greater(low as int, 0),
                last == lesser(high as int, self.height - 1),
                first <= y,
                0 <= x < self.width,
                old(self).wf(),
                self.wf(),
                count == self.area(),
                self.same_but_tiles(old(self)),
                forall|tx: int, ty: int|
                    old(self).in_bounds(tx, ty) ==> #[trigger] self.tile_at(tx, ty) == (
                    if in_column_tunnel(y1 as int, y2 as int, x as int, tx, ty) && ty < y {
                        TileType::Floor
                    } else {
                        old(self).tile_at(tx, ty)
                    }),
            decreases last + 1 - y,
        {
            let ghost before = *self;
            let idx = self.xy_idx(x, y);
            if idx < count {
                self.tiles[idx] = TileType::Floor;
                proof {
                    self.lemma_tile_set(&before, x as int, y as int, TileType::Floor);
                }
            }
            y += 1;
        }
    }

    /// Whether the room overlaps one of the rooms of the map.
    fn overlaps_a_room(&self, room: &Rect) -> (taken: bool)
        ensures
            taken == self.room_is_taken(*room),
    {
        let mut ok = true;
        let mut k: usize = 0;
        while k < self.rooms.len()
            invariant
                k <= self.rooms.len(),
                ok == (forall|j: int| 0 <= j < k ==> !room.overlaps(&#[trigger] self.rooms@[j])),
            decreases self.rooms.len() - k,
        {
            if room.intersect(&self.rooms[k]) {
                ok = false;
            }
            k += 1;
        }
        !ok
    }

    /// Adds the room if it overlaps none of the rooms placed so far, and
    /// says whether it did. A room that is added is dug out and, if it is
    /// not the first, joined to the room before it by a bent corridor
    /// between their middles, along the row first if `horizontal_first`.
    /// A room that overlaps is dropped and the map stays as it is.
    pub fn add_room(&mut self, new_room: Rect, horizontal_first: bool) -> (placed: bool)
        requires
            old(self).wf(),
            old(self).room_fits(new_room),
        ensures
            final(self).wf(),
            placed == !old(self).room_is_taken(new_room),
            placed ==> final(self).has_added(old(self), new_room, horizontal_first),
            !placed ==> *final(self) == *old(self),
    {
        if self.overlaps_a_room(&new_room) {
            return false;
        }
        self.apply_room_to_map(&new_room);
        let ghost roomed = *self;
        let ghost mut half_dug = *self;
        if !self.rooms.is_empty() {
            let (new_x, new_y) = new_room.center();
            let previous = self.rooms[self.rooms.len() - 1];
            let (prev_x, prev_y) = previous.center();
            if horizontal_first {
                self.apply_horizontal_tunnel(prev_x, new_x, prev_y);
                proof {
                    half_dug = *self;
                }
                self.apply_vertical_tunnel(prev_y, new_y, new_x);
            } else {
                self.apply_vertical_tunnel(prev_y, new_y, prev_x);
                proof {
                    half_dug = *self;
                }
                self.apply_horizontal_tunnel(prev_x, new_x, new_y);
            }
        }
        let ghost dug = *self;
        proof {
            assert forall|x: int, y: int| old(self).in_bounds(x, y) implies #[trigger] dug.tile_at(
                x,
                y,
            ) == (if old(self).dug_for(new_room, horizontal_first, x, y) {
                TileType::Floor
            } else {
                old(self).tile_at(x, y)
            }) by {
                // Naming the tile at each stage brings in what each step
                // of the digging says of it.
                let a = roomed.tile_at(x, y);
                let b = half_dug.tile_at(x, y);
            }
        }
        self.rooms.push(new_room);
        proof {
            assert forall|x: int, y: int| old(self).in_bounds(x, y) implies #[trigger] self.tile_at(
                x,
                y,
            ) == dug.tile_at(x, y) by {}
        }
        true
    }

    /// The room has a size that the generator draws, and lies where the
    /// generator puts rooms: clear of the right and bottom edge.
    pub open spec fn is_generated_room(room: Rect) -> bool {
        &&& MIN_SIZE <= room.x2 - room.x1 < MAX_SIZE
        &&& MIN_SIZE <= room.y2 - room.y1 < MAX_SIZE
        &&& 0 <= room.x1
        &&& room.x2 <= MAP_WIDTH - 3
        &&& 0 <= room.y1
        &&& room.y2 <= MAP_HEIGHT - 3
    }

    /// The map is solid wall of the size of a generated level, on the
    /// first depth, with no rooms, nothing seen and nobody on it.
    pub open spec fn is_blank(&self) -> bool {
        &&& self.wf()
        &&& self.width == MAP_WIDTH
        &&& self.height == MAP_HEIGHT
        &&& self.depth == 1
        &&& self.dirty
        &&& self.rooms@.len() == 0
        &&& forall|i: int| 0 <= i < self.area() ==> #[trigger] self.tiles@[i] == TileType::Wall
        &&& forall|i: int| 0 <= i < self.area() ==> !#[trigger] self.revealed_tiles@[i]
        &&& forall|i: int| 0 <= i < self.area() ==> !#[trigger] self.visible_tiles@[i]
        &&& forall|i: int| 0 <= i < self.area() ==> !#[trigger] self.is_walkable@[i]
        &&& forall|i: int| 0 <= i < self.area() ==> !#[trigger] self.is_transparent@[i]
        &&& forall|i: int| 0 <= i < self.area() ==> (#[trigger] self.tile_content@[i])@.len() == 0
    }

    /// `self` is `earlier` after the room was tried: with the room added
    /// if it overlaps none of the rooms of `earlier`, and `earlier` itself
    /// if it does.
    pub open spec fn has_tried(&self, earlier: &GameMap, room: Rect, horizontal_first: bool) -> bool {
        if earlier.room_is_taken(room) {
            *self == *earlier
        } else {
            self.has_added(earlier, room, horizontal_first)
        }
    }

    /// `self` is `before` after `n` rooms of the generator's kind were
    /// tried, one after the other.
    pub open spec fn has_tried_rooms(&self, before: &GameMap, n: int) -> bool
        decreases n,
    {
        if n <= 0 {
            *self == *before
        } else {
            exists|earlier: GameMap, room: Rect, horizontal_first: bool|
                #![trigger self.has_tried(&earlier, room, horizontal_first)]
                earlier.wf() && earlier.has_tried_rooms(before, n - 1) && Self::is_generated_room(
                    room,
                ) && self.has_tried(&earlier, room, horizontal_first)
        }
    }

    /// The map is a level as the generator makes it: a blank map on which
    /// as many rooms were tried as the generator tries, with the flags
    /// derived from the tiles afterwards.
    pub open spec fn is_generated(&self) -> bool {
        exists|blank: GameMap, dug: GameMap|
            #![trigger dug.has_tried_rooms(&blank, MAX_ROOMS as int)]
            blank.is_blank() && dug.has_tried_rooms(&blank, MAX_ROOMS as int) && self.tiles@
                == dug.tiles@ && self.rooms@ == dug.rooms@ && self.width == dug.width && self.height
                == dug.height && self.depth == dug.depth && self.dirty == dug.dirty
                && self.revealed_tiles@ == dug.revealed_tiles@ && self.visible_tiles@
                == dug.visible_tiles@ && self.tile_content@ == dug.tile_content@
                && self.is_walkable@.len() == dug.is_walkable@.len() && self.is_transparent@.len()
                == dug.is_transparent@.len() && self.flags_follow_tiles()
    }

    /// A level of rooms and corridors. Rooms of random size are tried at
    /// random places, one after the other; a room that overlaps an earlier
    /// one is dropped, every other room is dug out and joined to the room
    /// placed before it. Whatever is drawn, the level has at least one
    /// room, and a walk leads from the middle of the first room to every
    /// open tile. The flags follow the tiles; nothing is seen yet and
    /// nobody stands on the map.
    pub fn new_map_rooms_and_corridors() -> (map: GameMap)
        ensures
            map.wf(),
            map.width == MAP_WIDTH,
            map.height == MAP_HEIGHT,
            map.depth == 1,
            map.dirty,
            1 <= map.rooms@.len() <= MAX_ROOMS,
            forall|k: int|
                0 <= k < map.rooms@.len() ==> Self::is_generated_room(#[trigger] map.rooms@[k]),
            map.is_generated(),
            map.is_laid_out(),
            map.is_connected_from(map.start()),
            map.flags_follow_tiles(),
            forall|i: int| 0 <= i < map.area() ==> !#[trigger] map.revealed_tiles@[i],
            forall|i: int| 0 <= i < map.area() ==> !#[trigger] map.visible_tiles@[i],
            forall|i: int| 0 <= i < map.area() ==> (#[trigger] map.tile_content@[i])@.len() == 0,
    {
        let mut map = GameMap::new(MAP_WIDTH, MAP_HEIGHT);
        let ghost blank = map;
        proof {
            assert forall|x: int, y: int| !#[trigger] map.is_open(x, y) by {
                if map.in_bounds(x, y) {
                    map.lemma_tile_index(x, y);
                }
            }
        }
        let mut i: i32 = 0;
        while i < MAX_ROOMS
            invariant
                0 <= i <= MAX_ROOMS,
                map.wf(),
                map.width == MAP_WIDTH,
                map.height == MAP_HEIGHT,
                map.depth == 1,
                map.dirty,
                map.rooms@.len() <= i,
                i > 0 ==> map.rooms@.len() > 0,
                blank.is_blank(),
                map.has_tried_rooms(&blank, i as int),
                forall|k: int|
                    0 <= k < map.rooms@.len() ==> Self::is_generated_room(#[trigger] map.rooms@[k]),
                map.is_laid_out(),
                forall|t: int| 0 <= t < map.area() ==> !#[trigger] map.revealed_tiles@[t],
                forall|t: int| 0 <= t < map.area() ==> !#[trigger] map.visible_tiles@[t],
                forall|t: int| 0 <= t < map.area() ==> (#[trigger] map.tile_content@[t])@.len() == 0,
            decreases MAX_ROOMS - i,
        {
            let w = random_range(MIN_SIZE, MAX_SIZE);
            let h = random_range(MIN_SIZE, MAX_SIZE);
            let x: i32 = random_range(1, MAP_WIDTH - w - 1) - 1;
            let y: i32 = random_range(1, MAP_HEIGHT - h - 1) - 1;
            let new_room = Rect::new(x, y, w, h);
            let horizontal_first = random_range(0, 2) == 1;
            let ghost before = map;
            let placed = map.add_room(new_room, horizontal_first);
            proof {
                assert(map.has_tried(&before, new_room, horizontal_first));
                if placed {
                    before.lemma_adding_room_keeps_layout(&map, new_room, horizontal_first);
                }
            }
            i += 1;
        }
        let ghost dug = map;
        map.recompute_map();
        proof {
            dug.lemma_layout_carries_over(&map);
            map.lemma_laid_out_is_connected();
        }
        map
    }

    /// `self` holds what `other` holds, grid for grid.
    pub open spec fn same_as(&self, other: &GameMap) -> bool {
        &&& self.dirty == other.dirty
        &&& self.tiles@ == other.tiles@
        &&& self.rooms@ == other.rooms@
        &&& self.width == other.width
        &&& self.height == other.height
        &&& self.depth == other.depth
        &&& self.revealed_tiles@ == other.revealed_tiles@
        &&& self.visible_tiles@ == other.visible_tiles@
        &&& self.is_walkable@ == other.is_walkable@
        &&& self.is_transparent@ == other.is_transparent@
        &&& self.tile_content@.len() == other.tile_content@.len()
        &&& forall|t: int|
            0 <= t < self.tile_content@.len() ==> (#[trigger] self.tile_content@[t])@
                == other.tile_content@[t]@
    }

    /// A copy of the map.
    pub fn duplicate(&self) -> (copy: GameMap)
        ensures
            copy.same_as(self),
            self.wf() ==> copy.wf(),
    {
        let mut tile_content: Vec<Vec<Entity>> = Vec::new();
        let mut t: usize = 0;
        while t < self.tile_content.len()
            invariant
                t <= self.tile_content@.len(),
                tile_content@.len() == t,
                forall|u: int| 0 <= u < t ==> (#[trigger] tile_content@[u])@ == self.tile_content@[u]@,
            decreases self.tile_content@.len() - t,
        {
            tile_content.push(self.tile_content[t].clone());
            t += 1;
        }
        let copy = GameMap {
            dirty: self.dirty,
            tiles: self.tiles.clone(),
            rooms: self.rooms.clone(),
            width: self.width,
            height: self.height,
            depth: self.depth,
            revealed_tiles: self.revealed_tiles.clone(),
            visible_tiles: self.visible_tiles.clone(),
            is_walkable: self.is_walkable.clone(),
            is_transparent: self.is_transparent.clone(),
            tile_content,
        };
        copy
    }
}

} // verus!
