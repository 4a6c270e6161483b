//! The turn state machine: which phase the game is in, what a tick does
//! in each phase, and which phase follows.

use crate::components::{Components, Position};
use crate::damage_system::{delete_the_dead, swept, DamageSystem};
use crate::geometry::Point;
use crate::map_builders::{
    is_level_with_stairs, is_monster_of_room, MapBuilder, SimpleMapBuilder,
};
use crate::map_indexing_system::MapIndexingSystem;
use crate::melee_combat_system::MeleeCombatSystem;
use crate::monster_ai_system::MonsterAI;
use crate::player::{input_handled, player_input, Key};
use crate::visibility_system::VisibilitySystem;
use crate::world::{components_fit, World};
use vstd::prelude::*;
use vstd::string::StringExecFns;

verus! {

/// The phase the game is in.
#[derive(PartialEq, Eq, Structural, Copy, Clone, Debug)]
pub enum RunState {
    /// Waiting for the player's command.
    AwaitingInput,
    /// Before the first turn.
    PreRun,
    /// The player's command is carried out.
    PlayerTurn,
    /// The monsters act.
    MonsterTurn,
    /// The game is over.
    ExitGame,
    /// The player goes down the stairs.
    NextLevel,
    /// The inventory is shown.
    ShowInventory,
    /// The items that can be dropped are shown.
    ShowDropItem,
    /// The items that can be taken off are shown.
    ShowRemoveItem,
}

/// The first entry of the log.
pub open spec fn welcome_text() -> Seq<char> {
    "Welcome to DWorld!"@
}

/// The depth below `depth`, as far as depths can be counted.
pub open spec fn deeper(depth: int) -> int {
    if depth < i32::MAX {
        depth + 1
    } else {
        depth
    }
}

/// The game: the world and the machine that drives its turns.
pub struct State {
    pub ecs: World,
}

impl State {
    /// `after` is `before` once every system has run once, in their fixed
    /// order: visibility, the monsters, map indexing, melee combat, and
    /// the taking of damage, each on the world the one before it left.
    pub open spec fn systems_ran<F: Fn(i32, i32, i32) -> Vec<Point>, P: Fn(Point, Point) -> Option<
        Point,
    >>(before: &World, after: &World, field_of_view: F, next_step: P) -> bool {
        exists|seen: World, moved: World, indexed: World, fought: World|
            #![trigger
                VisibilitySystem::ran(before, &seen, field_of_view),
                MonsterAI::ran(&seen, &moved, next_step),
                MapIndexingSystem::ran(&moved, &indexed),
                MeleeCombatSystem::ran(&indexed, &fought)]
            seen.wf() && moved.wf() && indexed.wf() && fought.wf() && VisibilitySystem::ran(
                before,
                &seen,
                field_of_view,
            ) && MonsterAI::ran(&seen, &moved, next_step) && MapIndexingSystem::ran(
                &moved,
                &indexed,
            ) && MeleeCombatSystem::ran(&indexed, &fought) && DamageSystem::ran(&fought, after)
    }

    /// Where the player's entity stands after arriving on the tile
    /// `start` of a new level: there, if it has a position at all.
    pub open spec fn arrived(c: &Components, start: Position) -> Option<Position> {
        if c.position is Some {
            Some(start)
        } else {
            None
        }
    }

    /// `after` is `before` once the player went down the stairs. The map
    /// is a new level of rooms and corridors, one deeper than the old one:
    /// well formed, laid out, connected, with nothing of it seen. Of the
    /// old entities only the player's remains, arrived in the middle of
    /// the first room; after it come the monsters of the new level, one
    /// for every room but the first. The phase, the player's handle and
    /// the log are as before.
    pub open spec fn descended(before: &World, after: &World) -> bool {
        let p = before.player_place();
        let rooms = after.map.rooms@;
        let start = Position { x: rooms[0].center_x() as i32, y: rooms[0].center_y() as i32 };
        &&& after.runstate == before.runstate
        &&& after.player_entity == before.player_entity
        &&& after.gamelog == before.gamelog
        &&& is_level_with_stairs(&after.map, deeper(before.map.depth as int))
        &&& after.map.depth == deeper(before.map.depth as int)
        &&& after.map.dirty
        &&& rooms.len() > 0
        &&& after.map.is_laid_out()
        &&& after.map.is_connected_from(after.player_pos)
        &&& after.map.flags_follow_tiles()
        &&& after.map.tile_at(rooms.last().center_x(), rooms.last().center_y())
            == crate::map::TileType::DownStairs
        &&& forall|t: int| 0 <= t < after.map.area() ==> !#[trigger] after.map.revealed_tiles@[t]
        &&& forall|t: int| 0 <= t < after.map.area() ==> !#[trigger] after.map.visible_tiles@[t]
        &&& forall|t: int|
            0 <= t < after.map.area() ==> (#[trigger] after.map.tile_content@[t])@.len() == 0
        &&& after.player_pos == (Point { x: start.x, y: start.y })
        &&& after.entities@.len() == before.entities@.len() + rooms.len() - 1
        &&& forall|i: int|
            0 <= i < before.entities@.len() && i != p ==> #[trigger] after.entities@[i] is None
        &&& before.alive_at(p) ==> after.alive_at(p) && after.at(p).position == Self::arrived(
            &before.at(p),
            start,
        ) && after.at(p).viewshed is Some == before.at(p).viewshed is Some && (
        before.at(p).viewshed is Some ==> after.at(p).viewshed->0.visible_tiles@.len() == 0
            && after.at(p).viewshed->0.dirty && after.at(p).viewshed->0.range == before.at(
            p,
        ).viewshed->0.range) && after.at(p) == (Components {
            position: after.at(p).position,
            viewshed: after.at(p).viewshed,
            ..before.at(p)
        })
        &&& 0 <= p < before.entities@.len() && !before.alive_at(p) ==> after.entities@[p] is None
        &&& forall|k: int|
            1 <= k < rooms.len() ==> #[trigger] is_monster_of_room(
                after,
                before.entities@.len() + k - 1,
                rooms[k],
                k - 1,
            )
    }

    /// `worked` is `before` once the work of its phase is done, and
    /// `next` is the phase that follows. Before the first turn the systems
    /// run and the game waits for input. While it waits, the key decides.
    /// After the player's turn and after the monsters' turn the systems
    /// run; the monsters follow the player, and then the game waits again.
    /// On the stairs the player descends, and the new level starts as the
    /// first did. A game that is over stays over, and while an inventory
    /// screen is shown nothing happens.
    pub open spec fn phase_done<F: Fn(i32, i32, i32) -> Vec<Point>, P: Fn(Point, Point) -> Option<
        Point,
    >>(
        before: &World,
        worked: &World,
        next: RunState,
        key: Option<Key>,
        shift_down: bool,
        control_down: bool,
        field_of_view: F,
        next_step: P,
    ) -> bool {
        match before.runstate {
            RunState::PreRun => next == RunState::AwaitingInput && Self::systems_ran(
                before,
                worked,
                field_of_view,
                next_step,
            ),
            RunState::AwaitingInput => input_handled(
                before,
                worked,
                key,
                shift_down,
                control_down,
                next,
            ),
            RunState::PlayerTurn => next == RunState::MonsterTurn && Self::systems_ran(
                before,
                worked,
                field_of_view,
                next_step,
            ),
            RunState::MonsterTurn => next == RunState::AwaitingInput && Self::systems_ran(
                before,
                worked,
                field_of_view,
                next_step,
            ),
            RunState::NextLevel => next == RunState::PreRun && Self::descended(before, worked),
            RunState::ExitGame => next == RunState::ExitGame && *worked == *before,
            RunState::ShowInventory => next == RunState::ShowInventory && *worked == *before,
            RunState::ShowDropItem => next == RunState::ShowDropItem && *worked == *before,
            RunState::ShowRemoveItem => next == RunState::ShowRemoveItem && *worked == *before,
        }
    }

    /// `after` is `before` one tick later: the work of the phase is done,
    /// the phase that follows is entered, and then the dead are swept
    /// away.
    pub open spec fn ticked<F: Fn(i32, i32, i32) -> Vec<Point>, P: Fn(Point, Point) -> Option<
        Point,
    >>(
        before: &World,
        after: &World,
        key: Option<Key>,
        shift_down: bool,
        control_down: bool,
        field_of_view: F,
        next_step: P,
    ) -> bool {
        exists|worked: World, next: RunState|
            #![trigger Self::phase_done(before, &worked, next, key, shift_down, control_down, field_of_view, next_step)]
            worked.wf() && Self::phase_done(
                before,
                &worked,
                next,
                key,
                shift_down,
                control_down,
                field_of_view,
                next_step,
            ) && swept(&(World { runstate: next, ..worked }), after)
    }

    /// A new game: a level of rooms and corridors at depth one, the player
    /// in the middle of its first room and a monster in the middle of
    /// every other room, before the first turn, with a welcome in the log.
    pub fn new() -> (gs: State)
        ensures
            gs.ecs.wf(),
            gs.ecs.runstate == RunState::PreRun,
            is_level_with_stairs(&gs.ecs.map, 1),
            gs.ecs.map.depth == 1,
            gs.ecs.map.is_laid_out(),
            gs.ecs.map.is_connected_from(gs.ecs.player_pos),
            gs.ecs.map.flags_follow_tiles(),
            gs.ecs.player_entity.id == 0,
            gs.ecs.alive(gs.ecs.player_entity),
            crate::spawner::is_new_player(
                &gs.ecs.at(0),
                gs.ecs.player_pos.x as int,
                gs.ecs.player_pos.y as int,
            ),
            gs.ecs.map.rooms@.len() > 0,
            gs.ecs.player_pos.x == gs.ecs.map.rooms@[0].center_x(),
            gs.ecs.player_pos.y == gs.ecs.map.rooms@[0].center_y(),
            gs.ecs.entities@.len() == gs.ecs.map.rooms@.len(),
            forall|k: int|
                1 <= k < gs.ecs.map.rooms@.len() ==> #[trigger] is_monster_of_room(
                    &gs.ecs,
                    k,
                    gs.ecs.map.rooms@[k],
                    k - 1,
                ),
            gs.ecs.gamelog.texts() == seq![welcome_text()],
    {
        let mut builder = SimpleMapBuilder::new(1);
        builder.build_map();
        let map = builder.get_map();
        let start = builder.get_starting_position();
        let mut ecs = World::new(map);
        proof {
            builder.map.lemma_layout_carries_over(&ecs.map);
        }
        crate::spawner::player(&mut ecs, start.x, start.y);
        builder.spawn_entities(&mut ecs);
        let ghost spawned = ecs;
        ecs.gamelog.push(String::from_str("Welcome to DWorld!"));
        proof {
            ecs.lemma_wf_carries_over(&spawned);
            assert forall|k: int| 1 <= k < ecs.map.rooms@.len() implies #[trigger] is_monster_of_room(
                &ecs,
                k,
                ecs.map.rooms@[k],
                k - 1,
            ) by {
                assert(is_monster_of_room(&spawned, 1 + k - 1, builder.map.rooms@[k], k - 1));
            }
        }
        State { ecs }
    }

    /// Runs every system once, in their fixed order.
    pub fn run_systems<F: Fn(i32, i32, i32) -> Vec<Point>, P: Fn(Point, Point) -> Option<Point>>(
        &mut self,
        field_of_view: &F,
        next_step: &P,
    )
        requires
            old(self).ecs.wf(),
            forall|x: i32, y: i32, range: i32| call_requires(*field_of_view, (x, y, range)),
            forall|from: Point, to: Point| call_requires(*next_step, (from, to)),
        ensures
            final(self).ecs.wf(),
            Self::systems_ran(&old(self).ecs, &final(self).ecs, *field_of_view, *next_step),
    {
        let mut vis = VisibilitySystem {  };
        vis.run(&mut self.ecs, field_of_view);
        let mut mob = MonsterAI {  };
        mob.run(&mut self.ecs, next_step);
        let mut mapindex = MapIndexingSystem {  };
        mapindex.run(&mut self.ecs);
        let mut melee = MeleeCombatSystem {  };
        melee.run(&mut self.ecs);
        let mut damage = DamageSystem {  };
        damage.run(&mut self.ecs);
    }

    /// Takes the player down the stairs: replaces the level by a new one,
    /// one deeper, removes every entity but the player's, puts the player
    /// at the start of the new level and the new monsters into its rooms.
    pub fn goto_next_level(&mut self)
        requires
            old(self).ecs.wf(),
        ensures
            final(self).ecs.wf(),
            Self::descended(&old(self).ecs, &final(self).ecs),
    {
        let depth = self.ecs.map.depth;
        let new_depth = if depth < i32::MAX {
            depth + 1
        } else {
            depth
        };
        let mut builder = SimpleMapBuilder::new(new_depth);
        builder.build_map();
        let start = builder.get_starting_position();
        let map = builder.get_map();
        proof {
            builder.map.lemma_layout_carries_over(&map);
        }
        let p: usize = self.ecs.player_entity.id;
        let n: usize = self.ecs.entities.len();
        let mut i: usize = 0;
        while i < n
            invariant
                i <= n,
                n == old(self).ecs.entities@.len(),
                self.ecs.entities@.len() == n,
                p == old(self).ecs.player_place(),
                self.ecs.map == old(self).ecs.map,
                self.ecs.runstate == old(self).ecs.runstate,
                self.ecs.player_entity == old(self).ecs.player_entity,
                self.ecs.gamelog == old(self).ecs.gamelog,
                map.in_bounds(start.x as int, start.y as int),
                forall|j: int| 0 <= j < i && j != p ==> #[trigger] self.ecs.entities@[j] is None,
                forall|j: int| i <= j < n ==> #[trigger] self.ecs.entities@[j] == old(
                    self,
                ).ecs.entities@[j],
                p < i && old(self).ecs.alive_at(p as int) ==> self.ecs.alive_at(p as int)
                    && self.ecs.at(p as int).position == Self::arrived(
                    &old(self).ecs.at(p as int),
                    start,
                ) && self.ecs.at(p as int).viewshed is Some == old(self).ecs.at(
                    p as int,
                ).viewshed is Some && (old(self).ecs.at(p as int).viewshed is Some ==> self.ecs.at(
                    p as int,
                ).viewshed->0.visible_tiles@.len() == 0 && self.ecs.at(p as int).viewshed->0.dirty
                    && self.ecs.at(p as int).viewshed->0.range == old(self).ecs.at(
                    p as int,
                ).viewshed->0.range) && self.ecs.at(p as int) == (Components {
                    position: self.ecs.at(p as int).position,
                    viewshed: self.ecs.at(p as int).viewshed,
                    ..old(self).ecs.at(p as int)
                }),
                p < i && !old(self).ecs.alive_at(p as int) ==> self.ecs.entities@[p as int] is None,
            decreases n - i,
        {
            if i == p {
                match &mut self.ecs.entities[i] {
                    Some(c) => {
                        if c.position.is_some() {
                            c.position = Some(start);
                        }
                        match &mut c.viewshed {
                            Some(viewshed) => {
                                viewshed.visible_tiles = Vec::new();
                                viewshed.dirty = true;
                            },
                            None => {},
                        }
                    },
                    None => {},
                }
            } else {
                self.ecs.entities[i] = None;
            }
            i += 1;
        }
        self.ecs.map = map;
        self.ecs.player_pos = Point { x: start.x, y: start.y };
        builder.spawn_entities(&mut self.ecs);
    }

    /// One tick of the game: does the work of the phase the game is in,
    /// enters the phase that follows and sweeps away the dead. The key
    /// pressed, if any, with the state of shift and control, counts only
    /// while the game waits for input. Says whether the game is over.
    pub fn tick<F: Fn(i32, i32, i32) -> Vec<Point>, P: Fn(Point, Point) -> Option<Point>>(
        &mut self,
        key: Option<Key>,
        shift_down: bool,
        control_down: bool,
        field_of_view: &F,
        next_step: &P,
    ) -> (exit: bool)
        requires
            old(self).ecs.wf(),
            forall|x: i32, y: i32, range: i32| call_requires(*field_of_view, (x, y, range)),
            forall|from: Point, to: Point| call_requires(*next_step, (from, to)),
        ensures
            final(self).ecs.wf(),
            exit == (old(self).ecs.runstate == RunState::ExitGame),
            Self::ticked(
                &old(self).ecs,
                &final(self).ecs,
                key,
                shift_down,
                control_down,
                *field_of_view,
                *next_step,
            ),
    {
        let mut exit: bool = false;
        let mut newrunstate = self.ecs.runstate;
        match newrunstate {
            RunState::PreRun => {
                self.run_systems(field_of_view, next_step);
                newrunstate = RunState::AwaitingInput;
            },
            RunState::AwaitingInput => {
                newrunstate = player_input(self, key, shift_down, control_down);
            },
            RunState::PlayerTurn => {
                self.run_systems(field_of_view, next_step);
                newrunstate = RunState::MonsterTurn;
            },
            RunState::MonsterTurn => {
                self.run_systems(field_of_view, next_step);
                newrunstate = RunState::AwaitingInput;
            },
            RunState::NextLevel => {
                self.goto_next_level();
                newrunstate = RunState::PreRun;
            },
            RunState::ExitGame => {
                exit = true;
            },
            _ => {},
        }
        let ghost worked = self.ecs;
        self.ecs.runstate = newrunstate;
        proof {
            self.ecs.lemma_wf_carries_over(&worked);
        }
        delete_the_dead(&mut self.ecs);
        proof {
            assert(Self::phase_done(
                &old(self).ecs,
                &worked,
                newrunstate,
                key,
                shift_down,
                control_down,
                *field_of_view,
                *next_step,
            ));
        }
        exit
    }
}

} // verus!
