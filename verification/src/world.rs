//! The world: every entity with its components, and the shared state of
//! the level they live in.

use crate::components::{Components, Entity};
use crate::gamelog::GameLog;
use crate::geometry::Point;
use crate::map::GameMap;
use crate::state::RunState;
use vstd::prelude::*;

verus! {

/// The components of an entity agree with the map: it stands on a tile of
/// the map and sees only tiles of the map.
pub open spec fn components_fit(map: &GameMap, c: &Components) -> bool {
    &&& c.position matches Some(pos) ==> map.in_bounds(pos.x as int, pos.y as int)
    &&& c.viewshed matches Some(viewshed) ==> forall|k: int|
        0 <= k < viewshed.visible_tiles@.len() ==> map.in_bounds(
            (#[trigger] viewshed.visible_tiles@[k]).x as int,
            viewshed.visible_tiles@[k].y as int,
        )
}

/// The simulation state. An entity's handle is its place in `entities`;
/// the place of a deleted entity stays empty and is never used again.
pub struct World {
    pub entities: Vec<Option<Components>>,
    pub map: GameMap,
    pub runstate: RunState,
    /// The entity the player controls.
    pub player_entity: Entity,
    /// Where the player was last known to stand.
    pub player_pos: Point,
    pub gamelog: GameLog,
}

impl World {
    /// Number of entity places, used or empty.
    pub open spec fn capacity(&self) -> int {
        self.entities@.len() as int
    }

    /// Place `i` holds a living entity.
    pub open spec fn alive_at(&self, i: int) -> bool {
        0 <= i < self.entities@.len() && self.entities@[i] is Some
    }

    /// The entity exists.
    pub open spec fn alive(&self, entity: Entity) -> bool {
        self.alive_at(entity.id as int)
    }

    /// The components of the living entity at place `i`.
    pub open spec fn at(&self, i: int) -> Components {
        self.entities@[i]->0
    }

    /// The map is well formed, the player's known position is a tile of
    /// the map, and every living entity agrees with the map.
    pub open spec fn wf(&self) -> bool {
        &&& self.map.wf()
        &&& self.map.in_bounds(self.player_pos.x as int, self.player_pos.y as int)
        &&& forall|i: int| #[trigger]
            self.alive_at(i) ==> components_fit(&self.map, &self.at(i))
    }

    /// Being well formed depends only on the entities, the map and the
    /// player's known position.
    pub proof fn lemma_wf_carries_over(&self, before: &World)
        requires
            before.wf(),
            self.entities@ == before.entities@,
            self.map == before.map,
            self.player_pos == before.player_pos,
        ensures
            self.wf(),
    {
        assert forall|i: int| #[trigger] self.alive_at(i) implies components_fit(
            &self.map,
            &self.at(i),
        ) by {
            assert(before.alive_at(i));
        }
    }

    /// A world on `map` without entities, before its first tick. The
    /// player handle names the entity that will be created first.
    pub fn new(map: GameMap) -> (world: World)
        requires
            map.wf(),
        ensures
            world.wf(),
            world.map == map,
            world.entities@.len() == 0,
            world.runstate == RunState::PreRun,
            world.player_entity == (Entity { id: 0 }),
            world.player_pos == (Point { x: 0, y: 0 }),
            world.gamelog.texts().len() == 0,
    {
        World {
            entities: Vec::new(),
            map,
            runstate: RunState::PreRun,
            player_entity: Entity { id: 0 },
            player_pos: Point { x: 0, y: 0 },
            gamelog: GameLog::new(),
        }
    }

    /// Adds an entity with the given components and returns its handle.
    pub fn create_entity(&mut self, components: Components) -> (entity: Entity)
        requires
            old(self).wf(),
            components_fit(&old(self).map, &components),
        ensures
            final(self).wf(),
            entity.id == old(self).entities@.len(),
            final(self).entities@ == old(self).entities@.push(Some(components)),
            final(self).map == old(self).map,
            final(self).runstate == old(self).runstate,
            final(self).player_entity == old(self).player_entity,
            final(self).player_pos == old(self).player_pos,
            final(self).gamelog == old(self).gamelog,
    {
        let id = self.entities.len();
        self.entities.push(Some(components));
        assert forall|i: int| #[trigger] self.alive_at(i) implies components_fit(
            &self.map,
            &self.at(i),
        ) by {
            if i < old(self).entities@.len() {
                assert(old(self).alive_at(i));
            }
        }
        Entity { id }
    }

    /// Removes the entity with all its components. Removing an entity
    /// that does not exist changes nothing.
    pub fn delete_entity(&mut self, entity: Entity)
        requires
            old(self).wf(),
        ensures
            final(self).wf(),
            final(self).entities@ == (if old(self).alive(entity) {
                old(self).entities@.update(entity.id as int, None)
            } else {
                old(self).entities@
            }),
            final(self).map == old(self).map,
            final(self).runstate == old(self).runstate,
            final(self).player_entity == old(self).player_entity,
            final(self).player_pos == old(self).player_pos,
            final(self).gamelog == old(self).gamelog,
    {
        if entity.id < self.entities.len() {
            self.entities[entity.id] = None;
            assert forall|i: int| #[trigger] self.alive_at(i) implies components_fit(
                &self.map,
                &self.at(i),
            ) by {
                assert(old(self).alive_at(i));
            }
        }
    }

    /// Whether the world is well formed.
    pub fn is_well_formed(&self) -> (good: bool)
        ensures
            good == self.wf(),
    {
        if !self.map.is_well_formed() || !self.map.contains(self.player_pos.x, self.player_pos.y) {
            return false;
        }
        let mut i: usize = 0;
        while i < self.entities.len()
            invariant
                i <= self.entities@.len(),
                self.map.wf(),
                forall|j: int|
                    0 <= j < i && #[trigger] self.alive_at(j) ==> components_fit(
                        &self.map,
                        &self.at(j),
                    ),
            decreases self.entities@.len() - i,
        {
            match &self.entities[i] {
                Some(c) => {
                    match &c.position {
                        Some(pos) => {
                            if !self.map.contains(pos.x, pos.y) {
                                assert(self.alive_at(i as int));
                                return false;
                            }
                        },
                        None => {},
                    }
                    match &c.viewshed {
                        Some(viewshed) => {
                            let mut k: usize = 0;
                            while k < viewshed.visible_tiles.len()
                                invariant
                                    k <= viewshed.visible_tiles@.len(),
                                    i < self.entities@.len(),
                                    self.entities@[i as int] == Some(*c),
                                    c.viewshed == Some(*viewshed),
                                    forall|j: int|
                                        0 <= j < k ==> self.map.in_bounds(
                                            (#[trigger] viewshed.visible_tiles@[j]).x as int,
                                            viewshed.visible_tiles@[j].y as int,
                                        ),
                                decreases viewshed.visible_tiles@.len() - k,
                            {
                                let tile = viewshed.visible_tiles[k];
                                if !self.map.contains(tile.x, tile.y) {
                                    proof {
                                        assert(self.alive_at(i as int));
                                        let sight = self.at(i as int).viewshed->0;
                                        assert(sight.visible_tiles@[k as int] == tile);
                                    }
                                    return false;
                                }
                                k += 1;
                            }
                        },
                        None => {},
                    }
                },
                None => {},
            }
            i += 1;
        }
        true
    }

    /// Whether the entity exists.
    pub fn is_alive(&self, entity: Entity) -> (alive: bool)
        ensures
            alive == self.alive(entity),
    {
        entity.id < self.entities.len() && self.entities[entity.id].is_some()
    }

    /// The components of the entity, if it exists.
    pub fn get(&self, entity: Entity) -> (found: Option<&Components>)
        ensures
            found is Some == self.alive(entity),
            found matches Some(c) ==> *c == self.at(entity.id as int),
    {
        if entity.id < self.entities.len() {
            self.entities[entity.id].as_ref()
        } else {
            None
        }
    }
}

} // verus!
