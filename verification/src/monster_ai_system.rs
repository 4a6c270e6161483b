//! Monster behaviour: strike the player when next to it, otherwise walk
//! one step toward it while it is in sight.
//!
//! Finding a path is left to the caller, who passes it in as a function
//! from a start and a goal to the first step of a path between them. This
//! module decides who asks for a path and what is done with the answer.

use crate::components::{Components, Entity, Position, Viewshed, WantsToMelee};
use crate::geometry::{
    holds_tile, in_melee_reach, within_melee_reach, within_one_step, Point,
};
use crate::map::{is_open_tile, TileType};
use crate::state::RunState;
use crate::world::{components_fit, World};
use vstd::prelude::*;

verus! {

/// What a monster does with its turn.
#[derive(Clone, Copy, Debug, PartialEq, Eq, Structural)]
pub enum MonsterPlan {
    /// Nothing: the player is neither in reach nor in sight.
    Idle,
    /// Strike the player, who is in reach.
    Attack,
    /// Walk one step along a path from `from`, where the monster stands,
    /// to `to`, where the player stands.
    Chase { from: Point, to: Point },
}

impl World {
    /// The living entity at place `i` is a monster that takes turns: it
    /// is marked as a monster and has sight and a position.
    pub open spec fn is_monster(&self, i: int) -> bool {
        &&& self.alive_at(i)
        &&& self.at(i).monster is Some
        &&& self.at(i).viewshed is Some
        &&& self.at(i).position is Some
    }

    /// The tile on which the entity at place `i` stands.
    pub open spec fn standing(&self, i: int) -> Point {
        Point { x: self.at(i).position->0.x, y: self.at(i).position->0.y }
    }

    /// The monster at place `i` has the player in reach.
    pub open spec fn monster_attacks(&self, i: int) -> bool {
        self.is_monster(i) && within_melee_reach(
            self.standing(i).x as int,
            self.standing(i).y as int,
            self.player_pos.x as int,
            self.player_pos.y as int,
        )
    }

    /// The monster at place `i` has the player in sight but not in reach.
    pub open spec fn monster_chases(&self, i: int) -> bool {
        &&& self.is_monster(i)
        &&& !self.monster_attacks(i)
        &&& self.at(i).viewshed->0.visible_tiles@.contains(self.player_pos)
    }

    /// What the entity at place `i` does with its turn. An entity that is
    /// no monster is idle.
    pub open spec fn plan_of(&self, i: int) -> MonsterPlan {
        if self.monster_attacks(i) {
            MonsterPlan::Attack
        } else if self.monster_chases(i) {
            MonsterPlan::Chase { from: self.standing(i), to: self.player_pos }
        } else {
            MonsterPlan::Idle
        }
    }

    /// The monster at place `i` can step onto `step`: a tile of the map,
    /// at most one tile away along each axis, that is no wall and is
    /// flagged walkable right now.
    pub open spec fn can_step(&self, i: int, step: Point) -> bool {
        &&& self.map.in_bounds(step.x as int, step.y as int)
        &&& within_one_step(
            self.standing(i).x as int,
            self.standing(i).y as int,
            step.x as int,
            step.y as int,
        )
        &&& is_open_tile(self.map.tile_at(step.x as int, step.y as int))
        &&& self.map.is_walkable@[self.map.tile_index(step.x as int, step.y as int)]
    }

    /// The monster at place `i` chases and moves, given that the path
    /// finder answered `step`.
    pub open spec fn monster_moves(&self, i: int, step: Option<Point>) -> bool {
        &&& self.monster_chases(i)
        &&& step is Some
        &&& self.can_step(i, step->0)
    }

    /// The components of the monster at place `i` after its turn, given
    /// that the path finder answered `step`: its sight is marked dirty; it
    /// wants to strike the player if the player is in reach; it stands on
    /// `step` if it chases and can step there.
    pub open spec fn after_turn(&self, i: int, step: Option<Point>) -> Components {
        Components {
            viewshed: Some(Viewshed { dirty: true, ..self.at(i).viewshed->0 }),
            wants_to_melee: if self.monster_attacks(i) {
                Some(WantsToMelee { target: self.player_entity })
            } else {
                self.at(i).wants_to_melee
            },
            position: if self.monster_moves(i, step) {
                Some(Position { x: step->0.x, y: step->0.y })
            } else {
                self.at(i).position
            },
            ..self.at(i)
        }
    }

    /// The walkable flags after the turn of the monster at place `i`,
    /// given that the path finder answered `step`: a monster that moves
    /// frees the tile it leaves and takes the tile it enters.
    pub open spec fn walkable_after_turn(&self, i: int, step: Option<Point>) -> Seq<bool> {
        if self.monster_moves(i, step) {
            self.map.is_walkable@.update(
                self.map.tile_index(self.standing(i).x as int, self.standing(i).y as int),
                true,
            ).update(self.map.tile_index(step->0.x as int, step->0.y as int), false)
        } else {
            self.map.is_walkable@
        }
    }

    /// What no monster's turn changes: all of the map but its walkable
    /// flags, and the rest of the shared state.
    pub open spec fn same_but_monsters(&self, before: &World) -> bool {
        &&& self.map.dirty == before.map.dirty
        &&& self.map.tiles == before.map.tiles
        &&& self.map.rooms == before.map.rooms
        &&& self.map.width == before.map.width
        &&& self.map.height == before.map.height
        &&& self.map.depth == before.map.depth
        &&& self.map.revealed_tiles == before.map.revealed_tiles
        &&& self.map.visible_tiles == before.map.visible_tiles
        &&& self.map.is_transparent == before.map.is_transparent
        &&& self.map.tile_content == before.map.tile_content
        &&& self.runstate == before.runstate
        &&& self.player_entity == before.player_entity
        &&& self.player_pos == before.player_pos
        &&& self.gamelog == before.gamelog
    }

    /// `self` is `before` after the entity at place `i` had its turn and
    /// the path finder answered `step`. Only a monster does anything.
    pub open spec fn follows_turn(&self, before: &World, i: int, step: Option<Point>) -> bool {
        &&& self.same_but_monsters(before)
        &&& if before.is_monster(i) {
            &&& self.entities@ == before.entities@.update(i, Some(before.after_turn(i, step)))
            &&& self.map.is_walkable@ == before.walkable_after_turn(i, step)
        } else {
            &&& self.entities@ == before.entities@
            &&& self.map.is_walkable@ == before.map.is_walkable@
        }
    }

    /// `step` is an answer that `next_step` can give to the entity at
    /// place `i`: one of its answers for the path from the monster to the
    /// player if the monster chases, and no step otherwise.
    pub open spec fn is_answer_for<P: Fn(Point, Point) -> Option<Point>>(
        &self,
        i: int,
        step: Option<Point>,
        next_step: P,
    ) -> bool {
        if self.monster_chases(i) {
            call_ensures(next_step, (self.standing(i), self.player_pos), step)
        } else {
            step is None
        }
    }

    /// `self` is `before` after the first `n` entities had their turns,
    /// one after the other in the order of their handles, each with an
    /// answer of `next_step`.
    pub open spec fn follows_turns<P: Fn(Point, Point) -> Option<Point>>(
        &self,
        before: &World,
        n: int,
        next_step: P,
    ) -> bool
        decreases n,
    {
        if n <= 0 {
            self.same_but_monsters(before) && self.entities@ == before.entities@
                && self.map.is_walkable@ == before.map.is_walkable@
        } else {
            exists|earlier: World, step: Option<Point>|
                #![trigger self.follows_turn(&earlier, n - 1, step)]
                earlier.wf() && earlier.follows_turns(before, n - 1, next_step)
                    && earlier.is_answer_for(n - 1, step, next_step) && self.follows_turn(
                    &earlier,
                    n - 1,
                    step,
                )
        }
    }
}

/// A monster's turn moves it by one tile at most, and only onto a tile of
/// the map that was walkable; every other entity stays where it was.
pub proof fn lemma_turn_is_one_step(before: World, after: World, i: int, step: Option<Point>)
    requires
        before.wf(),
        after.follows_turn(&before, i, step),
    ensures
        forall|j: int| after.alive_at(j) == before.alive_at(j),
        forall|j: int|
            before.alive_at(j) && j != i ==> #[trigger] after.entities@[j] == before.entities@[j],
        before.is_monster(i) ==> after.at(i).position is Some && within_one_step(
            before.standing(i).x as int,
            before.standing(i).y as int,
            after.standing(i).x as int,
            after.standing(i).y as int,
        ),
        before.is_monster(i) && after.standing(i) != before.standing(i) ==> step == Some(
            after.standing(i),
        ) && before.map.in_bounds(after.standing(i).x as int, after.standing(i).y as int)
            && is_open_tile(
            before.map.tile_at(after.standing(i).x as int, after.standing(i).y as int),
        ) && before.map.is_walkable@[before.map.tile_index(
            after.standing(i).x as int,
            after.standing(i).y as int,
        )],
{
}

impl World {
    /// Every monster stands on an open tile.
    pub open spec fn monsters_on_open_tiles(&self) -> bool {
        forall|i: int| #[trigger]
            self.is_monster(i) ==> is_open_tile(
                self.map.tile_at(self.standing(i).x as int, self.standing(i).y as int),
            )
    }
}

/// A monster's turn never takes it into a wall: where every monster
/// stands on an open tile before the turn, every monster does after it.
pub proof fn lemma_turn_keeps_off_walls(before: World, after: World, i: int, step: Option<Point>)
    requires
        before.wf(),
        before.monsters_on_open_tiles(),
        after.follows_turn(&before, i, step),
    ensures
        after.monsters_on_open_tiles(),
{
    assert forall|j: int| #[trigger] after.is_monster(j) implies is_open_tile(
        after.map.tile_at(after.standing(j).x as int, after.standing(j).y as int),
    ) by {
        if j != i || !before.is_monster(i) {
            assert(before.is_monster(j));
        } else {
            assert(after.entities@[i] == Some(before.after_turn(i, step)));
        }
    }
}

/// No monster walks into a wall in the monsters' part of a turn: where
/// every monster stands on an open tile before, every monster does after
/// the first `n` entities had their turns.
pub proof fn lemma_turns_keep_off_walls<P: Fn(Point, Point) -> Option<Point>>(
    before: World,
    after: World,
    n: int,
    next_step: P,
)
    requires
        before.wf(),
        before.monsters_on_open_tiles(),
        after.follows_turns(&before, n, next_step),
    ensures
        after.monsters_on_open_tiles(),
    decreases n,
{
    if n <= 0 {
        assert forall|j: int| #[trigger] after.is_monster(j) implies is_open_tile(
            after.map.tile_at(after.standing(j).x as int, after.standing(j).y as int),
        ) by {
            assert(before.is_monster(j));
        }
    } else {
        let (earlier, step) = choose|earlier: World, step: Option<Point>|
            #![trigger after.follows_turn(&earlier, n - 1, step)]
            earlier.wf() && earlier.follows_turns(&before, n - 1, next_step)
                && earlier.is_answer_for(n - 1, step, next_step) && after.follows_turn(
                &earlier,
                n - 1,
                step,
            );
        lemma_turns_keep_off_walls(before, earlier, n - 1, next_step);
        lemma_turn_keeps_off_walls(earlier, after, n - 1, step);
    }
}

/// Drives the monsters.
pub struct MonsterAI {}

impl MonsterAI {
    /// What the entity does with its turn: strike when the player is in
    /// reach, chase when the player is in sight, nothing otherwise.
    pub fn plan(world: &World, entity: Entity) -> (plan: MonsterPlan)
        ensures
            plan == world.plan_of(entity.id as int),
    {
        if entity.id >= world.entities.len() {
            return MonsterPlan::Idle;
        }
        match &world.entities[entity.id] {
            Some(c) => {
                match (&c.monster, &c.viewshed, &c.position) {
                    (Some(_), Some(viewshed), Some(pos)) => {
                        let here = Point { x: pos.x, y: pos.y };
                        if in_melee_reach(here, world.player_pos) {
                            MonsterPlan::Attack
                        } else if holds_tile(&viewshed.visible_tiles, world.player_pos) {
                            MonsterPlan::Chase { from: here, to: world.player_pos }
                        } else {
                            MonsterPlan::Idle
                        }
                    },
                    _ => MonsterPlan::Idle,
                }
            },
            None => MonsterPlan::Idle,
        }
    }

    /// The turn of one entity, given the answer `step` of the path finder
    /// (which counts only if the entity chases). A monster's sight is
    /// marked dirty. If the player is in reach, the monster wants to
    /// strike it. If it chases and `step` is a tile of the map at most one
    /// tile away that is no wall and is flagged walkable, it moves there,
    /// frees the tile it left and takes the tile it entered; otherwise it
    /// stays. An entity that is
    /// no monster changes nothing.
    pub fn act(world: &mut World, entity: Entity, step: Option<Point>)
        requires
            old(world).wf(),
        ensures
            final(world).wf(),
            final(world).follows_turn(old(world), entity.id as int, step),
    {
        let plan = Self::plan(world, entity);
        if entity.id >= world.entities.len() {
            return ;
        }
        let mut monster = false;
        match &world.entities[entity.id] {
            Some(c) => {
                monster = c.monster.is_some() && c.viewshed.is_some() && c.position.is_some();
            },
            None => {},
        }
        if !monster {
            return ;
        }
        let mut destination: Option<Point> = None;
        match plan {
            MonsterPlan::Chase { from, to } => {
                match step {
                    Some(s) => {
                        if world.map.contains(s.x, s.y) {
                            let dx: i64 = from.x as i64 - s.x as i64;
                            let dy: i64 = from.y as i64 - s.y as i64;
                            if -1 <= dx && dx <= 1 && -1 <= dy && dy <= 1 {
                                let new_idx = world.map.xy_idx(s.x, s.y);
                                if world.map.tiles[new_idx] != TileType::Wall
                                    && world.map.is_walkable[new_idx] {
                                    let old_idx = world.map.xy_idx(from.x, from.y);
                                    world.map.is_walkable[old_idx] = true;
                                    world.map.is_walkable[new_idx] = false;
                                    destination = Some(s);
                                }
                            }
                        }
                    },
                    None => {},
                }
            },
            _ => {},
        }
        let target = world.player_entity;
        match &mut world.entities[entity.id] {
            Some(c) => {
                match &mut c.viewshed {
                    Some(viewshed) => {
                        viewshed.dirty = true;
                    },
                    None => {},
                }
                match plan {
                    MonsterPlan::Attack => {
                        c.wants_to_melee = Some(WantsToMelee { target });
                    },
                    _ => {},
                }
                match destination {
                    Some(s) => {
                        c.position = Some(Position { x: s.x, y: s.y });
                    },
                    None => {},
                }
            },
            None => {},
        }
        proof {
            assert forall|i: int| #[trigger] world.alive_at(i) implies components_fit(
                &world.map,
                &world.at(i),
            ) by {
                assert(old(world).alive_at(i));
            }
        }
    }

    /// `after` is `before` once the monsters had their part of the turn:
    /// outside a monster turn nothing has changed; in a monster turn every
    /// entity had its turn, with answers of `next_step`.
    pub open spec fn ran<P: Fn(Point, Point) -> Option<Point>>(
        before: &World,
        after: &World,
        next_step: P,
    ) -> bool {
        if before.runstate == RunState::MonsterTurn {
            after.follows_turns(before, before.capacity(), next_step)
        } else {
            *after == *before
        }
    }

    /// The monsters' part of a monster turn; in any other phase nothing
    /// happens. Each entity has its turn, in the order of the handles: a
    /// monster that chases asks `next_step` for the first step of a path
    /// from its tile to the player's, and `act` does the rest. Whatever
    /// `next_step` answers, no monster ends on a wall that did not stand
    /// on one: if every monster stood on an open tile, every monster
    /// still does.
    pub fn run<P: Fn(Point, Point) -> Option<Point>>(&mut self, world: &mut World, next_step: &P)
        requires
            old(world).wf(),
            forall|from: Point, to: Point| call_requires(*next_step, (from, to)),
        ensures
            final(world).wf(),
            Self::ran(old(world), final(world), *next_step),
            old(world).monsters_on_open_tiles() ==> final(world).monsters_on_open_tiles(),
    {
        if world.runstate != RunState::MonsterTurn {
            return ;
        }
        let n: usize = world.entities.len();
        let mut i: usize = 0;
        while i < n
            invariant
                i <= n,
                n == old(world).entities@.len(),
                world.entities@.len() == n,
                world.wf(),
                forall|from: Point, to: Point| call_requires(*next_step, (from, to)),
                world.follows_turns(old(world), i as int, *next_step),
            decreases n - i,
        {
            let ghost earlier = *world;
            let entity = Entity { id: i };
            let step = match Self::plan(world, entity) {
                MonsterPlan::Chase { from, to } => next_step(from, to),
                _ => None,
            };
            Self::act(world, entity, step);
            proof {
                assert(earlier.is_answer_for((i + 1) - 1, step, *next_step));
            }
            i += 1;
        }
        proof {
            if old(world).monsters_on_open_tiles() {
                lemma_turns_keep_off_walls(*old(world), *world, n as int, *next_step);
            }
        }
    }
}

} // verus!
