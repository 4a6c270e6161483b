//! Creating the player and the monsters.

use crate::components::{
    BlocksTile, Color, CombatStats, Components, Entity, Monster, Name, Player, Position,
    Renderable, Viewshed,
};
use crate::geometry::Point;
use crate::random::random_range;
use crate::text::{numbered_name, numbered_name_text};
use crate::world::{components_fit, World};
use vstd::prelude::*;
use vstd::string::StringExecFns;

verus! {

/// How far the player and the monsters see.
pub const SIGHT_RANGE: i32 = 8;

/// The combat stats the player starts with.
pub open spec fn player_stats() -> CombatStats {
    CombatStats {
        max_hp: 30,
        curr_hp: 30,
        armor: 2,
        magic_res: 4,
        power: 4,
        max_mana: 50,
        curr_mana: 50,
    }
}

/// The combat stats a monster starts with.
pub open spec fn monster_stats() -> CombatStats {
    CombatStats {
        max_hp: 5,
        curr_hp: 5,
        armor: 2,
        magic_res: 4,
        power: 3,
        max_mana: 50,
        curr_mana: 50,
    }
}

/// The glyph of the monster for a roll of the die: a goblin on a one, an
/// orc otherwise.
pub open spec fn monster_glyph(roll: int) -> char {
    if roll == 1 {
        'g'
    } else {
        'o'
    }
}

/// The kind of the monster for a roll of the die.
pub open spec fn monster_kind(roll: int) -> Seq<char> {
    if roll == 1 {
        "Goblin"@
    } else {
        "Orc"@
    }
}

/// `c` is what the player starts with on the tile `(x, y)`.
pub open spec fn is_new_player(c: &Components, x: int, y: int) -> bool {
    &&& c.position == Some(Position { x: x as i32, y: y as i32 })
    &&& c.renderable == Some(
        Renderable {
            glyph: '@',
            fg: Color { r: 255, g: 255, b: 255 },
            bg: Color { r: 0, g: 0, b: 0 },
        },
    )
    &&& c.player is Some
    &&& c.viewshed is Some
    &&& c.viewshed->0.visible_tiles@.len() == 0
    &&& c.viewshed->0.range == SIGHT_RANGE
    &&& c.viewshed->0.dirty
    &&& c.monster is None
    &&& c.name is Some
    &&& c.name->0.name@ == "Player"@
    &&& c.blocks_tile is None
    &&& c.item is None
    &&& c.combat_stats == Some(player_stats())
    &&& c.wants_to_melee is None
    &&& c.wants_to_pickup is None
    &&& c.suffer_damage is None
}

/// `c` is what the monster for the roll `roll`, spawned as number
/// `number`, starts with on the tile `(x, y)`.
pub open spec fn is_new_monster(c: &Components, x: int, y: int, roll: int, number: int) -> bool {
    &&& c.position == Some(Position { x: x as i32, y: y as i32 })
    &&& c.renderable == Some(
        Renderable {
            glyph: monster_glyph(roll),
            fg: Color { r: 255, g: 0, b: 0 },
            bg: Color { r: 0, g: 0, b: 0 },
        },
    )
    &&& c.player is None
    &&& c.viewshed is Some
    &&& c.viewshed->0.visible_tiles@.len() == 0
    &&& c.viewshed->0.range == SIGHT_RANGE
    &&& c.viewshed->0.dirty
    &&& c.monster is Some
    &&& c.name is Some
    &&& c.name->0.name@ == numbered_name_text(monster_kind(roll), number)
    &&& c.blocks_tile is Some
    &&& c.item is None
    &&& c.combat_stats == Some(monster_stats())
    &&& c.wants_to_melee is None
    &&& c.wants_to_pickup is None
    &&& c.suffer_damage is None
}

/// `after` is `before` with one more entity, and as before otherwise but
/// for the player's handle and known position.
pub open spec fn has_one_more(before: &World, after: &World) -> bool {
    &&& after.entities@.len() == before.entities@.len() + 1
    &&& forall|i: int|
        0 <= i < before.entities@.len() ==> #[trigger] after.entities@[i] == before.entities@[i]
    &&& after.alive_at(before.entities@.len() as int)
    &&& after.map == before.map
    &&& after.runstate == before.runstate
    &&& after.gamelog == before.gamelog
}

/// Creates the player on the tile `(player_x, player_y)` and makes the
/// world know it as the player.
pub fn player(ecs: &mut World, player_x: i32, player_y: i32) -> (entity: Entity)
    requires
        old(ecs).wf(),
        old(ecs).map.in_bounds(player_x as int, player_y as int),
    ensures
        final(ecs).wf(),
        entity.id == old(ecs).entities@.len(),
        has_one_more(old(ecs), final(ecs)),
        is_new_player(&final(ecs).at(entity.id as int), player_x as int, player_y as int),
        final(ecs).player_entity == entity,
        final(ecs).player_pos == (Point { x: player_x, y: player_y }),
{
    let components = Components {
        position: Some(Position { x: player_x, y: player_y }),
        renderable: Some(Renderable { glyph: '@', fg: Color::white(), bg: Color::black() }),
        player: Some(Player {  }),
        viewshed: Some(Viewshed { visible_tiles: Vec::new(), range: SIGHT_RANGE, dirty: true }),
        monster: None,
        name: Some(Name { name: String::from_str("Player") }),
        blocks_tile: None,
        item: None,
        combat_stats: Some(
            CombatStats {
                max_hp: 30,
                curr_hp: 30,
                armor: 2,
                magic_res: 4,
                power: 4,
                max_mana: 50,
                curr_mana: 50,
            },
        ),
        wants_to_melee: None,
        wants_to_pickup: None,
        suffer_damage: None,
    };
    let entity = ecs.create_entity(components);
    let ghost created = *ecs;
    ecs.player_entity = entity;
    ecs.player_pos = Point { x: player_x, y: player_y };
    proof {
        assert forall|i: int| #[trigger] ecs.alive_at(i) implies components_fit(
            &ecs.map,
            &ecs.at(i),
        ) by {
            assert(created.alive_at(i));
        }
    }
    entity
}

/// Creates the monster for the roll `roll` of the die on the tile
/// `(x, y)`, as number `number`.
pub fn monster(ecs: &mut World, x: i32, y: i32, roll: i32, number: usize) -> (entity: Entity)
    requires
        old(ecs).wf(),
        old(ecs).map.in_bounds(x as int, y as int),
    ensures
        final(ecs).wf(),
        entity.id == old(ecs).entities@.len(),
        has_one_more(old(ecs), final(ecs)),
        is_new_monster(
            &final(ecs).at(entity.id as int),
            x as int,
            y as int,
            roll as int,
            number as int,
        ),
        final(ecs).player_entity == old(ecs).player_entity,
        final(ecs).player_pos == old(ecs).player_pos,
{
    let glyph: char = if roll == 1 {
        'g'
    } else {
        'o'
    };
    let kind: &str = if roll == 1 {
        "Goblin"
    } else {
        "Orc"
    };
    let components = Components {
        position: Some(Position { x, y }),
        renderable: Some(Renderable { glyph, fg: Color::red(), bg: Color::black() }),
        player: None,
        viewshed: Some(Viewshed { visible_tiles: Vec::new(), range: SIGHT_RANGE, dirty: true }),
        monster: Some(Monster {  }),
        name: Some(Name { name: numbered_name(kind, number) }),
        blocks_tile: Some(BlocksTile {  }),
        item: None,
        combat_stats: Some(
            CombatStats {
                max_hp: 5,
                curr_hp: 5,
                armor: 2,
                magic_res: 4,
                power: 3,
                max_mana: 50,
                curr_mana: 50,
            },
        ),
        wants_to_melee: None,
        wants_to_pickup: None,
        suffer_damage: None,
    };
    ecs.create_entity(components)
}

/// Creates a goblin or an orc, as a die decides, on the tile `(x, y)`, as
/// number `number`.
pub fn random_monster(ecs: &mut World, x: i32, y: i32, number: usize) -> (entity: Entity)
    requires
        old(ecs).wf(),
        old(ecs).map.in_bounds(x as int, y as int),
    ensures
        final(ecs).wf(),
        entity.id == old(ecs).entities@.len(),
        has_one_more(old(ecs), final(ecs)),
        exists|roll: int|
            1 <= roll <= 2 && #[trigger] is_new_monster(
                &final(ecs).at(entity.id as int),
                x as int,
                y as int,
                roll,
                number as int,
            ),
        final(ecs).player_entity == old(ecs).player_entity,
        final(ecs).player_pos == old(ecs).player_pos,
{
    let roll = random_range(1, 3);
    let entity = monster(ecs, x, y, roll, number);
    entity
}

} // verus!
