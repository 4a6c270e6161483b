//! What the player can do with a turn: move or strike, pick up, rest, and
//! take the stairs.

use crate::components::{
    Components, Entity, Position, Viewshed, WantsToMelee, WantsToPickupItem,
};
use crate::geometry::Point;
use crate::map::TileType;
use crate::state::{RunState, State};
use crate::world::{components_fit, World};
use vstd::prelude::*;
use vstd::string::StringExecFns;

verus! {

/// The keys the game knows. Every other key is `Other`.
#[derive(Clone, Copy, Debug, PartialEq, Eq, Structural)]
pub enum Key {
    Left,
    Right,
    Up,
    Down,
    Numpad1,
    Numpad2,
    Numpad3,
    Numpad4,
    Numpad6,
    Numpad7,
    Numpad8,
    Numpad9,
    H,
    J,
    K,
    L,
    Y,
    U,
    B,
    N,
    G,
    I,
    D,
    R,
    Escape,
    Period,
    Space,
    Comma,
    Other,
}

/// What the player asks for.
#[derive(Clone, Copy, Debug, PartialEq, Eq, Structural)]
pub enum Command {
    /// Step, or strike what stands in the way.
    Move { dx: i32, dy: i32 },
    /// Pick up what lies here.
    PickUp,
    /// Open the inventory.
    ShowInventory,
    /// Choose an item to drop.
    ShowDropItem,
    /// Choose an item to take off.
    ShowRemoveItem,
    /// Take the stairs down.
    Descend,
    /// Let the turn pass.
    Wait,
    /// Leave the game.
    Quit,
}

/// The command to move by `(dx, dy)`.
pub open spec fn move_by(dx: int, dy: int) -> Option<Command> {
    Some(Command::Move { dx: dx as i32, dy: dy as i32 })
}

/// The command that a key stands for, with or without shift and control
/// held down. Shift turns the left and right arrows into the upward
/// diagonals and control into the downward ones, each only when held
/// alone. A key that stands for nothing gives `None`.
pub open spec fn command_of(key: Key, shift: bool, control: bool) -> Option<Command> {
    match key {
        Key::Right => if shift && !control {
            move_by(1, -1)
        } else if control && !shift {
            move_by(1, 1)
        } else {
            move_by(1, 0)
        },
        Key::Left => if shift && !control {
            move_by(-1, -1)
        } else if control && !shift {
            move_by(-1, 1)
        } else {
            move_by(-1, 0)
        },
        Key::Numpad9 | Key::U => move_by(1, -1),
        Key::Numpad7 | Key::Y => move_by(-1, -1),
        Key::Numpad3 | Key::N => move_by(1, 1),
        Key::Numpad1 | Key::B => move_by(-1, 1),
        Key::Numpad4 | Key::H => move_by(-1, 0),
        Key::Numpad6 | Key::L => move_by(1, 0),
        Key::Up | Key::Numpad8 | Key::K => move_by(0, -1),
        Key::Down | Key::Numpad2 | Key::J => move_by(0, 1),
        Key::G => Some(Command::PickUp),
        Key::I => Some(Command::ShowInventory),
        Key::D => Some(Command::ShowDropItem),
        Key::R => Some(Command::ShowRemoveItem),
        Key::Escape => Some(Command::Quit),
        Key::Period => Some(Command::Descend),
        Key::Space | Key::Comma => Some(Command::Wait),
        Key::Other => None,
    }
}

/// Finds the command that a key stands for.
pub fn command_for(key: Key, shift: bool, control: bool) -> (command: Option<Command>)
    ensures
        command == command_of(key, shift, control),
{
    match key {
        Key::Right => if shift && !control {
            Some(Command::Move { dx: 1, dy: -1 })
        } else if control && !shift {
            Some(Command::Move { dx: 1, dy: 1 })
        } else {
            Some(Command::Move { dx: 1, dy: 0 })
        },
        Key::Left => if shift && !control {
            Some(Command::Move { dx: -1, dy: -1 })
        } else if control && !shift {
            Some(Command::Move { dx: -1, dy: 1 })
        } else {
            Some(Command::Move { dx: -1, dy: 0 })
        },
        Key::Numpad9 | Key::U => Some(Command::Move { dx: 1, dy: -1 }),
        Key::Numpad7 | Key::Y => Some(Command::Move { dx: -1, dy: -1 }),
        Key::Numpad3 | Key::N => Some(Command::Move { dx: 1, dy: 1 }),
        Key::Numpad1 | Key::B => Some(Command::Move { dx: -1, dy: 1 }),
        Key::Numpad4 | Key::H => Some(Command::Move { dx: -1, dy: 0 }),
        Key::Numpad6 | Key::L => Some(Command::Move { dx: 1, dy: 0 }),
        Key::Up | Key::Numpad8 | Key::K => Some(Command::Move { dx: 0, dy: -1 }),
        Key::Down | Key::Numpad2 | Key::J => Some(Command::Move { dx: 0, dy: 1 }),
        Key::G => Some(Command::PickUp),
        Key::I => Some(Command::ShowInventory),
        Key::D => Some(Command::ShowDropItem),
        Key::R => Some(Command::ShowRemoveItem),
        Key::Escape => Some(Command::Quit),
        Key::Period => Some(Command::Descend),
        Key::Space | Key::Comma => Some(Command::Wait),
        Key::Other => None,
    }
}

/// The log entry for stairs that are not there.
pub open spec fn no_way_down_text() -> Seq<char> {
    "There is no way down from here."@
}

/// The log entry for picking up where nothing lies.
pub open spec fn nothing_here_text() -> Seq<char> {
    "There is nothing here to pickup"@
}

impl World {
    /// Place of the player's entity.
    pub open spec fn player_place(&self) -> int {
        self.player_entity.id as int
    }

    /// The player's entity lives, is marked as the player and has a
    /// position and sight.
    pub open spec fn player_can_move(&self) -> bool {
        &&& self.alive(self.player_entity)
        &&& self.at(self.player_place()).player is Some
        &&& self.at(self.player_place()).position is Some
        &&& self.at(self.player_place()).viewshed is Some
    }

    /// The entity lives and has combat stats.
    pub open spec fn has_stats(&self, entity: Entity) -> bool {
        self.alive(entity) && self.at(entity.id as int).combat_stats is Some
    }

    /// The first entity with combat stats in `content`, from place `k` on.
    pub open spec fn first_fighter_from(&self, content: Seq<Entity>, k: int) -> Option<Entity>
        decreases content.len() - k,
    {
        if k < 0 || k >= content.len() {
            None
        } else if self.has_stats(content[k]) {
            Some(content[k])
        } else {
            self.first_fighter_from(content, k + 1)
        }
    }

    /// The first entity with combat stats in `content`.
    pub open spec fn first_fighter(&self, content: Seq<Entity>) -> Option<Entity> {
        self.first_fighter_from(content, 0)
    }

    /// The entity at place `i` is an item lying where the player stands.
    pub open spec fn item_lies_here(&self, i: int) -> bool {
        &&& self.alive_at(i)
        &&& self.at(i).item is Some
        &&& self.at(i).position matches Some(pos)
        &&& pos.x == self.player_pos.x
        &&& pos.y == self.player_pos.y
    }

    /// The last of the first `n` entities that is an item lying where the
    /// player stands.
    pub open spec fn last_item_here(&self, n: int) -> Option<Entity>
        decreases n,
    {
        if n <= 0 {
            None
        } else if self.item_lies_here(n - 1) {
            Some(Entity { id: (n - 1) as usize })
        } else {
            self.last_item_here(n - 1)
        }
    }

    /// The entity is a living monster.
    pub open spec fn is_monster_entity(&self, entity: Entity) -> bool {
        self.alive(entity) && self.at(entity.id as int).monster is Some
    }

    /// A monster is listed in the content of the tile `tile`.
    pub open spec fn monster_on(&self, tile: Point) -> bool {
        exists|j: int|
            0 <= j < self.map.tile_content@[self.map.tile_index(tile.x as int, tile.y as int)]@.len()
                && self.is_monster_entity(
                #[trigger] self.map.tile_content@[self.map.tile_index(
                    tile.x as int,
                    tile.y as int,
                )]@[j],
            )
    }

    /// A monster is listed on one of `tiles`.
    pub open spec fn monster_among(&self, tiles: Seq<Point>) -> bool {
        exists|k: int| 0 <= k < tiles.len() && self.monster_on(#[trigger] tiles[k])
    }

    /// The player can rest: its entity lives and has sight, and no monster
    /// is listed on a tile it sees.
    pub open spec fn player_can_rest(&self) -> bool {
        &&& self.alive(self.player_entity)
        &&& self.at(self.player_place()).viewshed is Some
        &&& !self.monster_among(self.at(self.player_place()).viewshed->0.visible_tiles@)
    }

    /// All but the entities and the player's known position is as in
    /// `before`.
    pub open spec fn same_surroundings(&self, before: &World) -> bool {
        &&& self.map == before.map
        &&& self.runstate == before.runstate
        &&& self.player_entity == before.player_entity
        &&& self.gamelog == before.gamelog
    }
}

/// Health after a rest: one more, but not above `max_hp`.
pub open spec fn rested_health(curr_hp: int, max_hp: int) -> int {
    if curr_hp + 1 <= max_hp {
        curr_hp + 1
    } else {
        max_hp
    }
}

/// `after` is `before` once the player tried to move by `(dx, dy)`.
/// Nothing happens if the player cannot move or the tile aimed at is off
/// the map. If an entity with combat stats is listed on that tile, the
/// player wants to strike the first of them and stays. Otherwise, if the tile is walkable, the player stands on it,
/// its sight is marked dirty and its known position follows.
pub open spec fn player_moved(before: &World, after: &World, dx: int, dy: int) -> bool {
    let p = before.player_place();
    let x = before.at(p).position->0.x + dx;
    let y = before.at(p).position->0.y + dy;
    let dest = before.map.tile_index(x, y);
    if !before.player_can_move() || !before.map.in_bounds(x, y) {
        *after == *before
    } else {
        match before.first_fighter(before.map.tile_content@[dest]@) {
            Some(target) => {
                &&& after.same_surroundings(before)
                &&& after.player_pos == before.player_pos
                &&& after.entities@ == before.entities@.update(
                    p,
                    Some(
                        Components {
                            wants_to_melee: Some(WantsToMelee { target }),
                            ..before.at(p)
                        },
                    ),
                )
            },
            None => if before.map.is_walkable@[dest] {
                &&& after.same_surroundings(before)
                &&& after.player_pos == (Point { x: x as i32, y: y as i32 })
                &&& after.entities@ == before.entities@.update(
                    p,
                    Some(
                        Components {
                            position: Some(Position { x: x as i32, y: y as i32 }),
                            viewshed: Some(
                                Viewshed { dirty: true, ..before.at(p).viewshed->0 },
                            ),
                            ..before.at(p)
                        },
                    ),
                )
            } else {
                *after == *before
            },
        }
    }
}

/// Moves the player by `(delta_x, delta_y)`, or has it strike what stands
/// there.
pub fn try_move_player(delta_x: i32, delta_y: i32, ecs: &mut World)
    requires
        old(ecs).wf(),
    ensures
        final(ecs).wf(),
        player_moved(old(ecs), final(ecs), delta_x as int, delta_y as int),
{
    let p: usize = ecs.player_entity.id;
    if p >= ecs.entities.len() {
        return ;
    }
    let mut origin: Option<Position> = None;
    match &ecs.entities[p] {
        Some(c) => {
            if c.player.is_some() && c.viewshed.is_some() {
                origin = c.position;
            }
        },
        None => {},
    }
    let pos = match origin {
        Some(pos) => pos,
        None => {
            return ;
        },
    };
    let x: i64 = pos.x as i64 + delta_x as i64;
    let y: i64 = pos.y as i64 + delta_y as i64;
    if x < 0 || x > ecs.map.width as i64 - 1 || y < 0 || y > ecs.map.height as i64 - 1 {
        return ;
    }
    let x: i32 = x as i32;
    let y: i32 = y as i32;
    let dest = ecs.map.xy_idx(x, y);
    let mut target: Option<Entity> = None;
    let mut k: usize = 0;
    while k < ecs.map.tile_content[dest].len() && target.is_none()
        invariant
            *ecs == *old(ecs),
            dest < ecs.map.tile_content@.len(),
            k <= ecs.map.tile_content@[dest as int]@.len(),
            target is None ==> ecs.first_fighter(ecs.map.tile_content@[dest as int]@)
                == ecs.first_fighter_from(ecs.map.tile_content@[dest as int]@, k as int),
            target is Some ==> ecs.first_fighter(ecs.map.tile_content@[dest as int]@) == target,
        decreases ecs.map.tile_content@[dest as int]@.len() - k + (if target is None { 1int } else { 0int }),
    {
        let candidate = ecs.map.tile_content[dest][k];
        if candidate.id < ecs.entities.len() {
            match &ecs.entities[candidate.id] {
                Some(c) => {
                    if c.combat_stats.is_some() {
                        target = Some(candidate);
                    }
                },
                None => {},
            }
        }
        if target.is_none() {
            k += 1;
        }
    }
    match target {
        Some(target) => {
            match &mut ecs.entities[p] {
                Some(c) => {
                    c.wants_to_melee = Some(WantsToMelee { target });
                },
                None => {},
            }
        },
        None => {
            if ecs.map.is_walkable[dest] {
                match &mut ecs.entities[p] {
                    Some(c) => {
                        c.position = Some(Position { x, y });
                        match &mut c.viewshed {
                            Some(viewshed) => {
                                viewshed.dirty = true;
                            },
                            None => {},
                        }
                    },
                    None => {},
                }
                ecs.player_pos = Point { x, y };
            }
        },
    }
    proof {
        assert forall|i: int| #[trigger] ecs.alive_at(i) implies components_fit(
            &ecs.map,
            &ecs.at(i),
        ) by {
            assert(old(ecs).alive_at(i));
        }
    }
}

/// `after` is `before` once the player tried the stairs, with the answer
/// `down`: the answer is yes exactly if the player's known position is a
/// staircase down; if it is not, the log says so. Nothing else changes.
pub open spec fn tried_stairs(before: &World, after: &World, down: bool) -> bool {
    &&& down == (before.map.tile_at(before.player_pos.x as int, before.player_pos.y as int)
        == TileType::DownStairs)
    &&& after.entities == before.entities
    &&& after.map == before.map
    &&& after.runstate == before.runstate
    &&& after.player_entity == before.player_entity
    &&& after.player_pos == before.player_pos
    &&& if down {
        after.gamelog == before.gamelog
    } else {
        after.gamelog.texts() == before.gamelog.texts().push(no_way_down_text())
    }
}

/// Whether the player stands on a staircase down. If not, the log says
/// that there is no way down.
pub fn try_next_level(ecs: &mut World) -> (down: bool)
    requires
        old(ecs).wf(),
    ensures
        final(ecs).wf(),
        tried_stairs(old(ecs), final(ecs), down),
{
    let player_idx = ecs.map.xy_idx(ecs.player_pos.x, ecs.player_pos.y);
    if ecs.map.tiles[player_idx] == TileType::DownStairs {
        true
    } else {
        ecs.gamelog.push(String::from_str("There is no way down from here."));
        proof {
            ecs.lemma_wf_carries_over(old(ecs));
        }
        false
    }
}

/// `after` is `before` once the player tried to pick something up: if an
/// item lies where the player stands, the player's entity, if it lives,
/// wants to pick up the last such item; if none lies there, the log says
/// so. Nothing else changes.
pub open spec fn picked_up(before: &World, after: &World) -> bool {
    let p = before.player_place();
    &&& after.map == before.map
    &&& after.runstate == before.runstate
    &&& after.player_entity == before.player_entity
    &&& after.player_pos == before.player_pos
    &&& match before.last_item_here(before.capacity()) {
        Some(item) => {
            &&& after.gamelog == before.gamelog
            &&& if before.alive(before.player_entity) {
                after.entities@ == before.entities@.update(
                    p,
                    Some(
                        Components {
                            wants_to_pickup: Some(
                                WantsToPickupItem { collected_by: before.player_entity, item },
                            ),
                            ..before.at(p)
                        },
                    ),
                )
            } else {
                after.entities@ == before.entities@
            }
        },
        None => {
            &&& after.entities@ == before.entities@
            &&& after.gamelog.texts() == before.gamelog.texts().push(nothing_here_text())
        },
    }
}

/// Has the player pick up the item that lies where it stands.
pub fn get_item(ecs: &mut World)
    requires
        old(ecs).wf(),
    ensures
        final(ecs).wf(),
        picked_up(old(ecs), final(ecs)),
{
    let n: usize = ecs.entities.len();
    let mut target_item: Option<Entity> = None;
    let mut i: usize = 0;
    while i < n
        invariant
            i <= n,
            n == ecs.entities@.len(),
            *ecs == *old(ecs),
            target_item == ecs.last_item_here(i as int),
        decreases n - i,
    {
        match &ecs.entities[i] {
            Some(c) => {
                match (&c.item, &c.position) {
                    (Some(_), Some(pos)) => {
                        if pos.x == ecs.player_pos.x && pos.y == ecs.player_pos.y {
                            target_item = Some(Entity { id: i });
                        }
                    },
                    _ => {},
                }
            },
            None => {},
        }
        i += 1;
    }
    match target_item {
        Some(item) => {
            let p: usize = ecs.player_entity.id;
            let collected_by = ecs.player_entity;
            if p < n {
                match &mut ecs.entities[p] {
                    Some(c) => {
                        c.wants_to_pickup = Some(WantsToPickupItem { collected_by, item });
                    },
                    None => {},
                }
                proof {
                    if !old(ecs).alive(old(ecs).player_entity) {
                        assert(ecs.entities@ =~= old(ecs).entities@);
                    }
                    assert forall|k: int| #[trigger] ecs.alive_at(k) implies components_fit(
                        &ecs.map,
                        &ecs.at(k),
                    ) by {
                        assert(old(ecs).alive_at(k));
                    }
                }
            }
        },
        None => {
            ecs.gamelog.push(String::from_str("There is nothing here to pickup"));
            proof {
                ecs.lemma_wf_carries_over(old(ecs));
            }
        },
    }
}

/// `after` is `before` once the player let a turn pass: if the player can
/// rest and has combat stats, its health is one higher, up to its
/// maximum. Nothing else changes.
pub open spec fn rested(before: &World, after: &World) -> bool {
    let p = before.player_place();
    &&& after.same_surroundings(before)
    &&& after.player_pos == before.player_pos
    &&& if before.player_can_rest() && before.at(p).combat_stats is Some {
        after.entities@ == before.entities@.update(
            p,
            Some(
                Components {
                    combat_stats: Some(
                        crate::components::CombatStats {
                            curr_hp: rested_health(
                                before.at(p).combat_stats->0.curr_hp as int,
                                before.at(p).combat_stats->0.max_hp as int,
                            ) as i32,
                            ..before.at(p).combat_stats->0
                        },
                    ),
                    ..before.at(p)
                },
            ),
        )
    } else {
        after.entities@ == before.entities@
    }
}

/// Whether a monster is listed on one of the tiles the entity sees.
fn monster_in_view(ecs: &World, tiles: &Vec<Point>) -> (found: bool)
    requires
        ecs.wf(),
        forall|k: int|
            0 <= k < tiles@.len() ==> ecs.map.in_bounds(
                (#[trigger] tiles@[k]).x as int,
                tiles@[k].y as int,
            ),
    ensures
        found == ecs.monster_among(tiles@),
{
    let mut k: usize = 0;
    while k < tiles.len()
        invariant
            k <= tiles.len(),
            ecs.wf(),
            forall|k: int|
                0 <= k < tiles@.len() ==> ecs.map.in_bounds(
                    (#[trigger] tiles@[k]).x as int,
                    tiles@[k].y as int,
                ),
            forall|q: int| 0 <= q < k ==> !ecs.monster_on(#[trigger] tiles@[q]),
        decreases tiles.len() - k,
    {
        let tile = tiles[k];
        let idx = ecs.map.xy_idx(tile.x, tile.y);
        let mut j: usize = 0;
        while j < ecs.map.tile_content[idx].len()
            invariant
                idx == ecs.map.tile_index(tile.x as int, tile.y as int),
                idx < ecs.map.tile_content@.len(),
                j <= ecs.map.tile_content@[idx as int]@.len(),
                tile == tiles@[k as int],
                k < tiles.len(),
                forall|q: int|
                    0 <= q < j ==> !ecs.is_monster_entity(
                        #[trigger] ecs.map.tile_content@[idx as int]@[q],
                    ),
            decreases ecs.map.tile_content@[idx as int]@.len() - j,
        {
            let entity = ecs.map.tile_content[idx][j];
            if entity.id < ecs.entities.len() {
                match &ecs.entities[entity.id] {
                    Some(c) => {
                        if c.monster.is_some() {
                            return true;
                        }
                    },
                    None => {},
                }
            }
            j += 1;
        }
        k += 1;
    }
    false
}

/// Lets a turn pass. The player regains one point of health, up to its
/// maximum, if no monster is listed on a tile it sees. The player's turn
/// is over.
pub fn skip_turn(ecs: &mut World) -> (next: RunState)
    requires
        old(ecs).wf(),
    ensures
        final(ecs).wf(),
        next == RunState::PlayerTurn,
        rested(old(ecs), final(ecs)),
{
    let p: usize = ecs.player_entity.id;
    if p >= ecs.entities.len() {
        return RunState::PlayerTurn;
    }
    let mut can_heal = false;
    match &ecs.entities[p] {
        Some(c) => {
            assert(ecs.alive_at(p as int));
            match &c.viewshed {
                Some(viewshed) => {
                    can_heal = !monster_in_view(ecs, &viewshed.visible_tiles);
                },
                None => {},
            }
        },
        None => {},
    }
    if can_heal {
        match &mut ecs.entities[p] {
            Some(c) => {
                match &mut c.combat_stats {
                    Some(stats) => {
                        if stats.curr_hp < stats.max_hp {
                            stats.curr_hp = stats.curr_hp + 1;
                        } else {
                            stats.curr_hp = stats.max_hp;
                        }
                    },
                    None => {},
                }
            },
            None => {},
        }
        proof {
            if old(ecs).at(p as int).combat_stats is None {
                assert(ecs.entities@ =~= old(ecs).entities@);
            }
            assert forall|i: int| #[trigger] ecs.alive_at(i) implies components_fit(
                &ecs.map,
                &ecs.at(i),
            ) by {
                assert(old(ecs).alive_at(i));
            }
        }
    }
    RunState::PlayerTurn
}

/// `after` is `before` once the player's command was carried out, and
/// `next` is the phase that follows. A move, picking up and waiting end
/// the player's turn, whether or not anything came of them. The stairs
/// lead to the next level, or end the turn where there are none. The
/// inventory screens and leaving the game change nothing but the phase.
pub open spec fn commanded(before: &World, after: &World, command: Command, next: RunState) -> bool {
    match command {
        Command::Move { dx, dy } => next == RunState::PlayerTurn && player_moved(
            before,
            after,
            dx as int,
            dy as int,
        ),
        Command::PickUp => next == RunState::PlayerTurn && picked_up(before, after),
        Command::Wait => next == RunState::PlayerTurn && rested(before, after),
        Command::Descend => exists|down: bool|
            #![trigger tried_stairs(before, after, down)]
            tried_stairs(before, after, down) && next == (if down {
                RunState::NextLevel
            } else {
                RunState::PlayerTurn
            }),
        Command::ShowInventory => next == RunState::ShowInventory && *after == *before,
        Command::ShowDropItem => next == RunState::ShowDropItem && *after == *before,
        Command::ShowRemoveItem => next == RunState::ShowRemoveItem && *after == *before,
        Command::Quit => next == RunState::ExitGame && *after == *before,
    }
}

/// `after` is `before` once the key, if any, was handled, and `next` is
/// the phase that follows: no key, or a key that stands for nothing,
/// changes nothing and keeps waiting for input.
pub open spec fn input_handled(
    before: &World,
    after: &World,
    key: Option<Key>,
    shift: bool,
    control: bool,
    next: RunState,
) -> bool {
    match key {
        Some(key) => match command_of(key, shift, control) {
            Some(command) => commanded(before, after, command, next),
            None => next == RunState::AwaitingInput && *after == *before,
        },
        None => next == RunState::AwaitingInput && *after == *before,
    }
}

/// Carries out the player's command.
pub fn perform(ecs: &mut World, command: Command) -> (next: RunState)
    requires
        old(ecs).wf(),
    ensures
        final(ecs).wf(),
        commanded(old(ecs), final(ecs), command, next),
{
    match command {
        Command::Move { dx, dy } => {
            try_move_player(dx, dy, ecs);
            RunState::PlayerTurn
        },
        Command::PickUp => {
            get_item(ecs);
            RunState::PlayerTurn
        },
        Command::Wait => skip_turn(ecs),
        Command::Descend => {
            let down = try_next_level(ecs);
            if down {
                RunState::NextLevel
            } else {
                RunState::PlayerTurn
            }
        },
        Command::ShowInventory => RunState::ShowInventory,
        Command::ShowDropItem => RunState::ShowDropItem,
        Command::ShowRemoveItem => RunState::ShowRemoveItem,
        Command::Quit => RunState::ExitGame,
    }
}

/// Handles the key that was pressed, if any, with the state of shift and
/// control, and says which phase follows.
pub fn player_input(gs: &mut State, key: Option<Key>, shift_down: bool, control_down: bool) -> (next:
    RunState)
    requires
        old(gs).ecs.wf(),
    ensures
        final(gs).ecs.wf(),
        input_handled(&old(gs).ecs, &final(gs).ecs, key, shift_down, control_down, next),
{
    match key {
        None => RunState::AwaitingInput,
        Some(key) => match command_for(key, shift_down, control_down) {
            Some(command) => perform(&mut gs.ecs, command),
            None => RunState::AwaitingInput,
        },
    }
}

} // verus!
