//! What the screen shows of the world: which glyph stands for each tile,
//! which entities are in view, and which lines of the log are on display.
//! Putting them on a screen is left to the caller.

use crate::components::{Color, Position, Renderable};
use crate::gamelog::GameLog;
use crate::map::{GameMap, TileType};
use crate::world::World;
use vstd::prelude::*;

verus! {

/// The glyph that stands for a tile.
pub open spec fn tile_glyph(tile: TileType) -> char {
    match tile {
        TileType::Floor => '.',
        TileType::Wall => '#',
        TileType::DownStairs => '>',
    }
}

/// The colour of a tile that is in view.
pub open spec fn tile_color(tile: TileType) -> Color {
    match tile {
        TileType::Floor => Color { r: 191, g: 143, b: 0 },
        TileType::Wall => Color { r: 0, g: 127, b: 0 },
        TileType::DownStairs => Color { r: 0, g: 255, b: 255 },
    }
}

/// How a tile is drawn: by its glyph on black, in its own colour while it
/// is in view and in grey once it is not.
pub open spec fn tile_drawing(tile: TileType, visible: bool) -> Renderable {
    Renderable {
        glyph: tile_glyph(tile),
        fg: if visible {
            tile_color(tile)
        } else {
            Color { r: 159, g: 159, b: 159 }
        },
        bg: Color { r: 0, g: 0, b: 0 },
    }
}

/// What is drawn on the place of each tile: nothing until the tile is
/// revealed, and then the tile.
pub open spec fn map_drawing(map: &GameMap) -> Seq<Option<Renderable>> {
    Seq::new(
        map.tiles@.len(),
        |i: int|
            if map.revealed_tiles@[i] {
                Some(tile_drawing(map.tiles@[i], map.visible_tiles@[i]))
            } else {
                None
            },
    )
}

/// How a tile is drawn.
pub fn draw_tile(tile: TileType, visible: bool) -> (drawing: Renderable)
    ensures
        drawing == tile_drawing(tile, visible),
{
    let glyph = match tile {
        TileType::Floor => '.',
        TileType::Wall => '#',
        TileType::DownStairs => '>',
    };
    let mut fg = match tile {
        TileType::Floor => Color { r: 191, g: 143, b: 0 },
        TileType::Wall => Color { r: 0, g: 127, b: 0 },
        TileType::DownStairs => Color { r: 0, g: 255, b: 255 },
    };
    if !visible {
        fg = Color { r: 159, g: 159, b: 159 };
    }
    Renderable { glyph, fg, bg: Color { r: 0, g: 0, b: 0 } }
}

/// What is to be drawn on the place of each tile of the map, in the
/// order of the grid.
pub fn draw_map(map: &GameMap) -> (drawing: Vec<Option<Renderable>>)
    requires
        map.wf(),
    ensures
        drawing@ == map_drawing(map),
{
    let mut drawing: Vec<Option<Renderable>> = Vec::new();
    let count: usize = map.tiles.len();
    let mut idx: usize = 0;
    while idx < count
        invariant
            idx <= count,
            count == map.tiles@.len(),
            map.wf(),
            drawing@.len() == idx,
            forall|i: int| 0 <= i < idx ==> #[trigger] drawing@[i] == map_drawing(map)[i],
        decreases count - idx,
    {
        if map.revealed_tiles[idx] {
            drawing.push(Some(draw_tile(map.tiles[idx], map.visible_tiles[idx])));
        } else {
            drawing.push(None);
        }
        idx += 1;
    }
    drawing
}

impl World {
    /// The entity at place `i` is drawn: it lives, has a position and a
    /// look, and stands on a tile that is in view.
    pub open spec fn is_drawn(&self, i: int) -> bool {
        &&& self.alive_at(i)
        &&& self.at(i).renderable is Some
        &&& self.at(i).position matches Some(pos)
        &&& self.map.visible_tiles@[self.map.tile_index(pos.x as int, pos.y as int)]
    }

    /// Where and how those of the first `n` entities are drawn that are
    /// drawn at all, in the order of their handles.
    pub open spec fn entity_drawing(&self, n: int) -> Seq<(Position, Renderable)>
        decreases n,
    {
        if n <= 0 {
            Seq::empty()
        } else if self.is_drawn(n - 1) {
            self.entity_drawing(n - 1).push(
                (self.at(n - 1).position->0, self.at(n - 1).renderable->0),
            )
        } else {
            self.entity_drawing(n - 1)
        }
    }
}

/// Where and how the entities are to be drawn that stand in view, in the
/// order of their handles.
pub fn draw_entities(ecs: &World) -> (drawing: Vec<(Position, Renderable)>)
    requires
        ecs.wf(),
    ensures
        drawing@ == ecs.entity_drawing(ecs.capacity()),
{
    let mut drawing: Vec<(Position, Renderable)> = Vec::new();
    let n: usize = ecs.entities.len();
    let mut i: usize = 0;
    while i < n
        invariant
            i <= n,
            n == ecs.capacity(),
            ecs.wf(),
            drawing@ == ecs.entity_drawing(i as int),
        decreases n - i,
    {
        match &ecs.entities[i] {
            Some(c) => {
                assert(ecs.alive_at(i as int));
                match (&c.position, &c.renderable) {
                    (Some(pos), Some(render)) => {
                        let idx = ecs.map.xy_idx(pos.x, pos.y);
                        if ecs.map.visible_tiles[idx] {
                            drawing.push((*pos, *render));
                        }
                    },
                    _ => {},
                }
            },
            None => {},
        }
        i += 1;
    }
    drawing
}

/// The lines of the log on display in a panel of `rows` rows: the newest
/// entry first, then the one before it, and so on; line number `k` is
/// entry number `len - 1 - k`.
pub open spec fn log_display(log: &GameLog, rows: int) -> Seq<Seq<char>> {
    Seq::new(
        (if rows < 0 {
            0
        } else if rows < log.entries@.len() {
            rows
        } else {
            log.entries@.len() as int
        }) as nat,
        |k: int| log.entries@[log.entries@.len() - 1 - k]@,
    )
}

/// The lines of the log to show in a panel of `rows` rows, top line
/// first.
pub fn log_lines(log: &GameLog, rows: usize) -> (lines: Vec<String>)
    ensures
        lines@.len() == log_display(log, rows as int).len(),
        forall|k: int| 0 <= k < lines@.len() ==> (#[trigger] lines@[k])@ == log_display(
            log,
            rows as int,
        )[k],
{
    let mut lines: Vec<String> = Vec::new();
    let total: usize = log.entries.len();
    let shown: usize = if rows < total {
        rows
    } else {
        total
    };
    let mut k: usize = 0;
    while k < shown
        invariant
            k <= shown,
            shown <= total,
            total == log.entries@.len(),
            shown == log_display(log, rows as int).len(),
            lines@.len() == k,
            forall|j: int| 0 <= j < k ==> (#[trigger] lines@[j])@ == log_display(
                log,
                rows as int,
            )[j],
        decreases shown - k,
    {
        lines.push(log.entries[total - 1 - k].clone());
        k += 1;
    }
    lines
}

} // verus!
