//! Map indexing: who stands on which tile, and which tiles can be stepped
//! on right now.

use crate::components::Entity;
use crate::map::is_open_tile;
use crate::world::World;
use vstd::prelude::*;

verus! {

impl World {
    /// The living entity at place `i` stands on the tile with index `tile`.
    pub open spec fn stands_on(&self, i: int, tile: int) -> bool {
        &&& self.alive_at(i)
        &&& self.at(i).position matches Some(pos)
        &&& self.map.tile_index(pos.x as int, pos.y as int) == tile
    }

    /// The living entity at place `i` stands on `tile` and blocks it.
    pub open spec fn blocks(&self, i: int, tile: int) -> bool {
        self.stands_on(i, tile) && self.at(i).blocks_tile is Some
    }

    /// One of the first `n` entities blocks `tile`.
    pub open spec fn blocked_among(&self, tile: int, n: int) -> bool {
        exists|i: int| 0 <= i < n && self.blocks(i, tile)
    }

    /// Some entity blocks `tile`.
    pub open spec fn blocked(&self, tile: int) -> bool {
        self.blocked_among(tile, self.capacity())
    }

    /// Those of the first `n` entities that stand on `tile`, in the order
    /// of their handles.
    pub open spec fn occupants_among(&self, tile: int, n: int) -> Seq<Entity>
        decreases n,
    {
        if n <= 0 {
            Seq::empty()
        } else if self.stands_on(n - 1, tile) {
            self.occupants_among(tile, n - 1).push(Entity { id: (n - 1) as usize })
        } else {
            self.occupants_among(tile, n - 1)
        }
    }

    /// The entities that stand on `tile`, in the order of their handles.
    pub open spec fn occupants(&self, tile: int) -> Seq<Entity> {
        self.occupants_among(tile, self.capacity())
    }

    /// The derived parts of the map are up to date: a tile is transparent
    /// when it is open, walkable when it is open and no entity blocks it,
    /// and its content lists the entities that stand on it.
    pub open spec fn is_indexed(&self) -> bool {
        &&& forall|t: int|
            0 <= t < self.map.area() ==> #[trigger] self.map.is_transparent@[t] == is_open_tile(
                self.map.tiles@[t],
            )
        &&& forall|t: int|
            0 <= t < self.map.area() ==> #[trigger] self.map.is_walkable@[t] == (is_open_tile(
                self.map.tiles@[t],
            ) && !self.blocked(t))
        &&& forall|t: int|
            0 <= t < self.map.area() ==> (#[trigger] self.map.tile_content@[t])@
                == self.occupants(t)
    }

    /// What the indexing pass leaves alone: the entities, the tiles, the
    /// rooms, what the player has seen, and the shared state.
    pub open spec fn same_but_index(&self, before: &World) -> bool {
        &&& self.entities == before.entities
        &&& self.map.tiles == before.map.tiles
        &&& self.map.rooms == before.map.rooms
        &&& self.map.width == before.map.width
        &&& self.map.height == before.map.height
        &&& self.map.depth == before.map.depth
        &&& self.map.revealed_tiles == before.map.revealed_tiles
        &&& self.map.visible_tiles == before.map.visible_tiles
        &&& self.runstate == before.runstate
        &&& self.player_entity == before.player_entity
        &&& self.player_pos == before.player_pos
        &&& self.gamelog == before.gamelog
    }
}

/// Who stands on a tile depends only on the entities and the map's width.
pub proof fn lemma_occupants_depend_on_entities(a: World, b: World, tile: int, n: int)
    requires
        a.entities@ == b.entities@,
        a.map.width == b.map.width,
    ensures
        a.occupants_among(tile, n) == b.occupants_among(tile, n),
    decreases n,
{
    if n > 0 {
        lemma_occupants_depend_on_entities(a, b, tile, n - 1);
    }
}

/// Whoever is listed among the occupants of a tile lives and stands on
/// it, and whoever lives and stands on it is listed.
pub proof fn lemma_occupants_stand_there(world: World, tile: int, n: int)
    requires
        0 <= n <= world.capacity(),
    ensures
        forall|entity: crate::components::Entity|
            world.occupants_among(tile, n).contains(entity) <==> entity.id < n && world.stands_on(
                entity.id as int,
                tile,
            ),
    decreases n,
{
    if n > 0 {
        lemma_occupants_stand_there(world, tile, n - 1);
        assert(world.entities.len() == world.entities@.len());
        let earlier = world.occupants_among(tile, n - 1);
        let last = Entity { id: (n - 1) as usize };
        assert forall|entity: crate::components::Entity|
            world.occupants_among(tile, n).contains(entity) <==> entity.id < n && world.stands_on(
                entity.id as int,
                tile,
            ) by {
            if world.stands_on(n - 1, tile) {
                let all = earlier.push(last);
                if all.contains(entity) {
                    let k = choose|k: int| 0 <= k < all.len() && all[k] == entity;
                    if k < earlier.len() {
                        assert(earlier[k] == entity);
                    }
                }
                if earlier.contains(entity) {
                    let k = choose|k: int| 0 <= k < earlier.len() && earlier[k] == entity;
                    assert(all[k] == entity);
                }
                if entity.id == n - 1 {
                    assert(all[all.len() - 1] == entity);
                }
            }
        }
    }
}

/// In an indexed world the content of a tile names exactly the living
/// entities that stand on it; an entity that was removed is named
/// nowhere.
pub proof fn lemma_index_names_the_living(world: World, tile: int, entity: crate::components::Entity)
    requires
        world.is_indexed(),
        0 <= tile < world.map.area(),
    ensures
        world.map.tile_content@[tile]@.contains(entity) <==> world.alive(entity)
            && world.stands_on(entity.id as int, tile),
{
    lemma_occupants_stand_there(world, tile, world.capacity());
}

/// Running the indexing pass twice in a row, with no entity changed in
/// between, gives the same walkable flags, transparent flags and tile
/// contents as running it once: `once` is a world after one pass and
/// `twice` the world after the next.
pub proof fn lemma_indexing_is_idempotent(once: World, twice: World)
    requires
        once.wf(),
        twice.wf(),
        once.is_indexed(),
        MapIndexingSystem::ran(&once, &twice),
    ensures
        twice.map.is_walkable@ == once.map.is_walkable@,
        twice.map.is_transparent@ == once.map.is_transparent@,
        forall|t: int|
            0 <= t < once.map.area() ==> (#[trigger] twice.map.tile_content@[t])@
                == once.map.tile_content@[t]@,
{
    assert forall|t: int| 0 <= t < once.map.area() implies #[trigger] twice.map.is_walkable@[t]
        == once.map.is_walkable@[t] by {
        assert forall|i: int| once.blocks(i, t) == twice.blocks(i, t) by {}
    }
    assert forall|t: int| 0 <= t < once.map.area() implies (#[trigger] twice.map.tile_content@[t])@
        == once.map.tile_content@[t]@ by {
        lemma_occupants_depend_on_entities(once, twice, t, once.capacity());
    }
}

/// Rebuilds the derived parts of the map from the tiles and the entities.
pub struct MapIndexingSystem {}

impl MapIndexingSystem {
    /// `after` is `before` once the indexing pass has run: the map is
    /// clean and its derived parts are up to date, and nothing else has
    /// changed.
    pub open spec fn ran(before: &World, after: &World) -> bool {
        &&& after.is_indexed()
        &&& !after.map.dirty
        &&& after.same_but_index(before)
    }

    /// Marks the map clean, derives the walkable and transparent flags
    /// from the tiles, empties every tile's content, then enters each
    /// entity that has a position into the content of its tile and, if it
    /// blocks, makes that tile unwalkable.
    pub fn run(&mut self, world: &mut World)
        requires
            old(world).wf(),
        ensures
            final(world).wf(),
            Self::ran(old(world), final(world)),
    {
        world.map.dirty = false;
        world.map.recompute_map();
        let count: usize = world.map.tile_content.len();
        let mut t: usize = 0;
        while t < count
            invariant
                t <= count,
                count == world.map.area(),
                world.map.wf(),
                world.map.flags_follow_tiles(),
                !world.map.dirty,
                world.same_but_index(old(world)),
                forall|u: int| 0 <= u < t ==> (#[trigger] world.map.tile_content@[u])@.len() == 0,
            decreases count - t,
        {
            world.map.tile_content[t].clear();
            t += 1;
        }
        let n: usize = world.entities.len();
        let mut i: usize = 0;
        while i < n
            invariant
                i <= n,
                n == world.capacity(),
                old(world).wf(),
                world.map.wf(),
                !world.map.dirty,
                world.same_but_index(old(world)),
                forall|u: int|
                    0 <= u < world.map.area() ==> #[trigger] world.map.is_transparent@[u]
                        == is_open_tile(world.map.tiles@[u]),
                forall|u: int|
                    0 <= u < world.map.area() ==> #[trigger] world.map.is_walkable@[u] == (
                    is_open_tile(world.map.tiles@[u]) && !world.blocked_among(u, i as int)),
                forall|u: int|
                    0 <= u < world.map.area() ==> (#[trigger] world.map.tile_content@[u])@
                        == world.occupants_among(u, i as int),
            decreases n - i,
        {
            let ghost before = *world;
            let mut spot: Option<(usize, bool)> = None;
            match &world.entities[i] {
                Some(c) => {
                    match c.position {
                        Some(pos) => {
                            assert(old(world).alive_at(i as int));
                            let idx = world.map.xy_idx(pos.x, pos.y);
                            spot = Some((idx, c.blocks_tile.is_some()));
                        },
                        None => {},
                    }
                },
                None => {},
            }
            match spot {
                Some((idx, blocking)) => {
                    if blocking {
                        world.map.is_walkable[idx] = false;
                    }
                    world.map.tile_content[idx].push(Entity { id: i });
                },
                None => {},
            }
            proof {
                assert forall|u: int| 0 <= u < world.map.area() implies (
                #[trigger] world.map.tile_content@[u])@ == world.occupants_among(u, i + 1) by {
                    lemma_occupants_depend_on_entities(before, *world, u, i as int);
                }
                assert forall|u: int| 0 <= u < world.map.area() implies #[trigger] world.map.is_walkable@[u]
                    == (is_open_tile(world.map.tiles@[u]) && !world.blocked_among(u, i + 1)) by {
                    assert forall|j: int| before.blocks(j, u) == world.blocks(j, u) by {}
                    if world.blocks(i as int, u) {
                    } else {
                        if world.blocked_among(u, i + 1) {
                            let j = choose|j: int| 0 <= j < i + 1 && world.blocks(j, u);
                            assert(0 <= j < i && before.blocks(j, u));
                        }
                        if before.blocked_among(u, i as int) {
                            let j = choose|j: int| 0 <= j < i && before.blocks(j, u);
                            assert(world.blocks(j, u));
                        }
                    }
                }
            }
            i += 1;
        }
        proof {
            assert forall|k: int| #[trigger] world.alive_at(k) implies crate::world::components_fit(
                &world.map,
                &world.at(k),
            ) by {
                assert(old(world).alive_at(k));
            }
        }
    }
}

} // verus!
