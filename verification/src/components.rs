//! The pieces of data an entity can carry.

use crate::geometry::Point;
use vstd::prelude::*;

verus! {

/// Handle of an entity: its slot in the world's entity table.
#[derive(Clone, Copy, Debug, PartialEq, Eq, Structural)]
pub struct Entity {
    pub id: usize,
}

/// Where an entity stands; always a tile of the map.
#[derive(Clone, Copy, Debug, PartialEq, Eq, Structural)]
pub struct Position {
    pub x: i32,
    pub y: i32,
}

/// A colour as red, green and blue bytes.
#[derive(Clone, Copy, Debug, PartialEq, Eq, Structural)]
pub struct Color {
    pub r: u8,
    pub g: u8,
    pub b: u8,
}

impl Color {
    pub fn white() -> (c: Color)
        ensures
            c == (Color { r: 255, g: 255, b: 255 }),
    {
        Color { r: 255, g: 255, b: 255 }
    }

    pub fn black() -> (c: Color)
        ensures
            c == (Color { r: 0, g: 0, b: 0 }),
    {
        Color { r: 0, g: 0, b: 0 }
    }

    pub fn red() -> (c: Color)
        ensures
            c == (Color { r: 255, g: 0, b: 0 }),
    {
        Color { r: 255, g: 0, b: 0 }
    }
}

/// How an entity is drawn.
#[derive(Clone, Copy, Debug, PartialEq, Eq, Structural)]
pub struct Renderable {
    pub glyph: char,
    pub fg: Color,
    pub bg: Color,
}

/// Marks the entity the player controls.
#[derive(Clone, Copy, Debug, PartialEq, Eq, Structural)]
pub struct Player {}

/// Marks an entity driven by the monster behaviour.
#[derive(Clone, Copy, Debug, PartialEq, Eq, Structural)]
pub struct Monster {}

/// Marks an entity that others cannot walk through.
#[derive(Clone, Copy, Debug, PartialEq, Eq, Structural)]
pub struct BlocksTile {}

/// Marks an entity that can be picked up.
#[derive(Clone, Copy, Debug, PartialEq, Eq, Structural)]
pub struct Item {}

/// What an entity is called in the game log.
#[derive(Clone, Debug)]
pub struct Name {
    pub name: String,
}

/// The tiles an entity currently sees, and how far it can see.
/// `dirty` asks for the tiles to be computed afresh.
#[derive(Clone, Debug)]
pub struct Viewshed {
    pub visible_tiles: Vec<Point>,
    pub range: i32,
    pub dirty: bool,
}

/// Health and fighting strength.
#[derive(Clone, Copy, Debug, PartialEq, Eq, Structural)]
pub struct CombatStats {
    pub max_hp: i32,
    pub curr_hp: i32,
    pub armor: i32,
    pub magic_res: i32,
    pub power: i32,
    pub max_mana: i32,
    pub curr_mana: i32,
}

/// The wish to strike `target` this turn.
#[derive(Clone, Copy, Debug, PartialEq, Eq, Structural)]
pub struct WantsToMelee {
    pub target: Entity,
}

/// The wish of `collected_by` to pick up `item` this turn.
#[derive(Clone, Copy, Debug, PartialEq, Eq, Structural)]
pub struct WantsToPickupItem {
    pub collected_by: Entity,
    pub item: Entity,
}

/// Damage waiting to be taken, one amount per blow.
#[derive(Clone, Debug)]
pub struct SufferDamage {
    pub amount: Vec<i64>,
}

/// Everything one entity carries. A missing component is `None`.
#[derive(Clone, Debug)]
pub struct Components {
    pub position: Option<Position>,
    pub renderable: Option<Renderable>,
    pub player: Option<Player>,
    pub viewshed: Option<Viewshed>,
    pub monster: Option<Monster>,
    pub name: Option<Name>,
    pub blocks_tile: Option<BlocksTile>,
    pub item: Option<Item>,
    pub combat_stats: Option<CombatStats>,
    pub wants_to_melee: Option<WantsToMelee>,
    pub wants_to_pickup: Option<WantsToPickupItem>,
    pub suffer_damage: Option<SufferDamage>,
}

impl Components {
    /// No component is present.
    pub open spec fn is_bare(&self) -> bool {
        &&& self.position is None
        &&& self.renderable is None
        &&& self.player is None
        &&& self.viewshed is None
        &&& self.monster is None
        &&& self.name is None
        &&& self.blocks_tile is None
        &&& self.item is None
        &&& self.combat_stats is None
        &&& self.wants_to_melee is None
        &&& self.wants_to_pickup is None
        &&& self.suffer_damage is None
    }
}

impl Default for Components {
    fn default() -> (c: Components)
        ensures
            c.is_bare(),
    {
        Components {
            position: None,
            renderable: None,
            player: None,
            viewshed: None,
            monster: None,
            name: None,
            blocks_tile: None,
            item: None,
            combat_stats: None,
            wants_to_melee: None,
            wants_to_pickup: None,
            suffer_damage: None,
        }
    }
}

} // verus!
