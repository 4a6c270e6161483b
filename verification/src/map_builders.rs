//! Building a level: the strategies there are, the choice among them, and
//! the one that places rooms and joins them by corridors.

use crate::components::Position;
use crate::connectivity::point;
use crate::geometry::{Point, Rect};
use crate::map::{GameMap, TileType};
use crate::random::roll_dice;
use crate::spawner::{has_one_more, is_new_monster, random_monster};
use crate::world::World;
use vstd::prelude::*;

verus! {

/// The strategies for laying out a level.
#[derive(Clone, Copy, Debug, PartialEq, Eq, Structural)]
pub enum BuilderKind {
    BspDungeon,
    BspInterior,
    CellularAutomata,
    DrunkardOpenArea,
    DrunkardOpenHalls,
    DrunkardWindingPassages,
    DrunkardFatPassages,
    DrunkardFearfulSymmetry,
    Maze,
    DlaWalkInwards,
    DlaWalkOutwards,
    DlaCentralAttractor,
    DlaInsectoid,
    /// Rooms joined by corridors; the strategy of `SimpleMapBuilder`.
    Simple,
}

/// How many sides the die has that picks a strategy.
pub const BUILDER_DIE: i32 = 14;

/// Which strategy builds the level of which depth.
#[derive(Clone, Copy, Debug, PartialEq, Eq, Structural)]
pub struct BuilderPlan {
    pub kind: BuilderKind,
    pub depth: i32,
}

impl BuilderPlan {
    /// The builder that carries out the plan: a new builder of rooms and
    /// corridors for the plan's depth where that is the plan's strategy,
    /// and none for any other strategy.
    pub fn simple_builder(&self) -> (builder: Option<SimpleMapBuilder>)
        ensures
            builder is Some <==> self.kind == BuilderKind::Simple,
            builder is Some ==> builder->0.is_new(self.depth as int),
    {
        match self.kind {
            BuilderKind::Simple => Some(SimpleMapBuilder::new(self.depth)),
            _ => None,
        }
    }
}

/// The strategy that a roll of the die picks: one strategy for each of
/// the rolls from one to thirteen, and rooms with corridors on every
/// other roll.
pub open spec fn builder_of_roll(roll: int) -> BuilderKind {
    if roll == 1 {
        BuilderKind::BspDungeon
    } else if roll == 2 {
        BuilderKind::BspInterior
    } else if roll == 3 {
        BuilderKind::CellularAutomata
    } else if roll == 4 {
        BuilderKind::DrunkardOpenArea
    } else if roll == 5 {
        BuilderKind::DrunkardOpenHalls
    } else if roll == 6 {
        BuilderKind::DrunkardWindingPassages
    } else if roll == 7 {
        BuilderKind::DrunkardFatPassages
    } else if roll == 8 {
        BuilderKind::DrunkardFearfulSymmetry
    } else if roll == 9 {
        BuilderKind::Maze
    } else if roll == 10 {
        BuilderKind::DlaWalkInwards
    } else if roll == 11 {
        BuilderKind::DlaWalkOutwards
    } else if roll == 12 {
        BuilderKind::DlaCentralAttractor
    } else if roll == 13 {
        BuilderKind::DlaInsectoid
    } else {
        BuilderKind::Simple
    }
}

/// The strategy that a roll of the die picks.
pub fn builder_for_roll(roll: i32) -> (kind: BuilderKind)
    ensures
        kind == builder_of_roll(roll as int),
{
    match roll {
        1 => BuilderKind::BspDungeon,
        2 => BuilderKind::BspInterior,
        3 => BuilderKind::CellularAutomata,
        4 => BuilderKind::DrunkardOpenArea,
        5 => BuilderKind::DrunkardOpenHalls,
        6 => BuilderKind::DrunkardWindingPassages,
        7 => BuilderKind::DrunkardFatPassages,
        8 => BuilderKind::DrunkardFearfulSymmetry,
        9 => BuilderKind::Maze,
        10 => BuilderKind::DlaWalkInwards,
        11 => BuilderKind::DlaWalkOutwards,
        12 => BuilderKind::DlaCentralAttractor,
        13 => BuilderKind::DlaInsectoid,
        _ => BuilderKind::Simple,
    }
}

/// Picks the strategy for the level at depth `new_depth` by one roll of
/// the die. Whatever the die shows, the plan is for that depth and its
/// strategy is the one that some roll from one to fourteen picks.
pub fn random_builder(new_depth: i32) -> (plan: BuilderPlan)
    ensures
        plan.depth == new_depth,
        exists|roll: int| 1 <= roll <= BUILDER_DIE && plan.kind == #[trigger] builder_of_roll(roll),
{
    let roll = roll_dice(1, BUILDER_DIE);
    let kind = builder_for_roll(roll);
    BuilderPlan { kind, depth: new_depth }
}

/// The map is a level as the generator makes it, put at the depth `depth`,
/// with the middle of its last room turned into a staircase down.
pub open spec fn is_level_with_stairs(map: &GameMap, depth: int) -> bool {
    exists|generated: GameMap|
        #![trigger generated.is_generated()]
        generated.is_generated() && generated.rooms@.len() > 0 && map.rooms@ == generated.rooms@
            && map.tiles@ == generated.tiles@.update(
            generated.tile_index(
                generated.rooms@.last().center_x(),
                generated.rooms@.last().center_y(),
            ),
            TileType::DownStairs,
        ) && map.width == generated.width && map.height == generated.height && map.depth == depth
            && map.dirty == generated.dirty && map.revealed_tiles@ == generated.revealed_tiles@
            && map.visible_tiles@ == generated.visible_tiles@ && map.is_walkable@
            == generated.is_walkable@ && map.is_transparent@ == generated.is_transparent@
            && map.tile_content@.len() == generated.tile_content@.len() && (forall|t: int|
            0 <= t < map.tile_content@.len() ==> (#[trigger] map.tile_content@[t])@
                == generated.tile_content@[t]@)
}

/// Whatever holds a copy of a level with stairs holds such a level.
pub proof fn lemma_copy_is_level_with_stairs(map: &GameMap, copy: &GameMap, depth: int)
    requires
        is_level_with_stairs(map, depth),
        copy.same_as(map),
    ensures
        is_level_with_stairs(copy, depth),
{
    let generated = choose|generated: GameMap|
        #![trigger generated.is_generated()]
        generated.is_generated() && generated.rooms@.len() > 0 && map.rooms@ == generated.rooms@
            && map.tiles@ == generated.tiles@.update(
            generated.tile_index(
                generated.rooms@.last().center_x(),
                generated.rooms@.last().center_y(),
            ),
            TileType::DownStairs,
        ) && map.width == generated.width && map.height == generated.height && map.depth == depth
            && map.dirty == generated.dirty && map.revealed_tiles@ == generated.revealed_tiles@
            && map.visible_tiles@ == generated.visible_tiles@ && map.is_walkable@
            == generated.is_walkable@ && map.is_transparent@ == generated.is_transparent@
            && map.tile_content@.len() == generated.tile_content@.len() && (forall|t: int|
            0 <= t < map.tile_content@.len() ==> (#[trigger] map.tile_content@[t])@
                == generated.tile_content@[t]@);
    assert(generated.is_generated());
}

/// `picture` shows the map as it is, with every tile revealed.
pub open spec fn is_picture_of(picture: &GameMap, map: &GameMap) -> bool {
    &&& picture.dirty == map.dirty
    &&& picture.tiles@ == map.tiles@
    &&& picture.rooms@ == map.rooms@
    &&& picture.width == map.width
    &&& picture.height == map.height
    &&& picture.depth == map.depth
    &&& picture.revealed_tiles@.len() == map.revealed_tiles@.len()
    &&& forall|t: int| 0 <= t < picture.revealed_tiles@.len() ==> #[trigger] picture.revealed_tiles@[t]
    &&& picture.visible_tiles@ == map.visible_tiles@
    &&& picture.is_walkable@ == map.is_walkable@
    &&& picture.is_transparent@ == map.is_transparent@
    &&& picture.tile_content@.len() == map.tile_content@.len()
    &&& forall|t: int|
        0 <= t < picture.tile_content@.len() ==> (#[trigger] picture.tile_content@[t])@
            == map.tile_content@[t]@
}

/// The entity at place `place` of the world is a monster new in the
/// middle of `room`, a goblin or an orc, spawned as number `number`.
pub open spec fn is_monster_of_room(world: &World, place: int, room: Rect, number: int) -> bool {
    &&& world.alive_at(place)
    &&& exists|roll: int|
        1 <= roll <= 2 && #[trigger] is_new_monster(
            &world.at(place),
            room.center_x(),
            room.center_y(),
            roll,
            number,
        )
}

/// What every strategy offers: it builds a level, fills it with monsters,
/// and hands out the level and the tile where the player starts. The
/// level of every strategy is well formed and connected: a walk leads
/// from the start to every open tile.
pub trait MapBuilder {
    /// The level as the builder holds it.
    spec fn level(&self) -> GameMap;

    /// The tile where the player starts.
    spec fn start(&self) -> Position;

    /// The level has been built.
    spec fn is_built(&self) -> bool;

    /// Builds the level.
    fn build_map(&mut self)
        ensures
            final(self).is_built(),
    ;

    /// Puts the monsters of the level into the world, whose map has the
    /// size of the level. Entities are only added.
    fn spawn_entities(&mut self, ecs: &mut World)
        requires
            old(self).is_built(),
            old(ecs).wf(),
            old(ecs).map.width == old(self).level().width,
            old(ecs).map.height == old(self).level().height,
        ensures
            final(self).is_built(),
            final(self).level() == old(self).level(),
            final(self).start() == old(self).start(),
            final(ecs).wf(),
            final(ecs).entities@.len() >= old(ecs).entities@.len(),
            forall|i: int|
                0 <= i < old(ecs).entities@.len() ==> #[trigger] final(ecs).entities@[i] == old(ecs).entities@[i],
            final(ecs).map == old(ecs).map,
            final(ecs).runstate == old(ecs).runstate,
            final(ecs).player_entity == old(ecs).player_entity,
            final(ecs).player_pos == old(ecs).player_pos,
            final(ecs).gamelog == old(ecs).gamelog,
    ;

    /// A copy of the level.
    fn get_map(&self) -> (map: GameMap)
        requires
            self.is_built(),
        ensures
            map.same_as(&self.level()),
            map.wf(),
            map.is_connected_from(Point { x: self.start().x, y: self.start().y }),
    ;

    /// The tile where the player starts.
    fn get_starting_position(&self) -> (pos: Position)
        requires
            self.is_built(),
        ensures
            pos == self.start(),
    ;

    /// Copies of the pictures taken of the level so far, oldest first.
    fn get_snapshot_history(&self) -> (history: Vec<GameMap>)
    ;

    /// Takes a picture of the level as it is now.
    fn take_snapshot(&mut self)
        ensures
            final(self).is_built() == old(self).is_built(),
            final(self).level() == old(self).level(),
            final(self).start() == old(self).start(),
    ;
}

/// Builds a level of rooms joined by corridors, with the player starting
/// in the middle of the first room and a staircase down in the middle of
/// the last.
pub struct SimpleMapBuilder {
    pub map: GameMap,
    pub starting_position: Position,
    pub depth: i32,
    pub history: Vec<GameMap>,
}

impl SimpleMapBuilder {
    /// The middle of the last room, where the stairs are.
    pub open spec fn stairs(&self) -> Point {
        point(self.map.rooms@.last().center_x(), self.map.rooms@.last().center_y())
    }

    /// The builder is new: for the depth `depth`, with a blank level, no
    /// picture taken, and the start in the corner until the level is
    /// built.
    pub open spec fn is_new(&self, depth: int) -> bool {
        &&& self.depth == depth
        &&& self.map.is_blank()
        &&& self.starting_position == (Position { x: 0, y: 0 })
        &&& self.history@.len() == 0
    }

    /// A builder for the level at depth `new_depth`. Its level is solid
    /// wall until it is built.
    pub fn new(new_depth: i32) -> (builder: SimpleMapBuilder)
        ensures
            builder.is_new(new_depth as int),
    {
        SimpleMapBuilder {
            map: GameMap::new(crate::map::MAP_WIDTH, crate::map::MAP_HEIGHT),
            starting_position: Position { x: 0, y: 0 },
            depth: new_depth,
            history: Vec::new(),
        }
    }
}

impl MapBuilder for SimpleMapBuilder {
    open spec fn level(&self) -> GameMap {
        self.map
    }

    open spec fn start(&self) -> Position {
        self.starting_position
    }

    /// The level is well formed and laid out with at least one room, its
    /// flags follow its tiles, the start is the middle of the first room,
    /// and the middle of the last room is a staircase down.
    open spec fn is_built(&self) -> bool {
        &&& self.map.wf()
        &&& self.map.rooms@.len() > 0
        &&& self.map.is_laid_out()
        &&& self.map.flags_follow_tiles()
        &&& self.starting_position.x == self.map.rooms@[0].center_x()
        &&& self.starting_position.y == self.map.rooms@[0].center_y()
        &&& self.map.tile_at(self.stairs().x as int, self.stairs().y as int)
            == TileType::DownStairs
        &&& is_level_with_stairs(&self.map, self.depth as int)
    }

    fn build_map(&mut self)
        ensures
            final(self).depth == old(self).depth,
            final(self).map.depth == old(self).depth,
            final(self).history@.len() == old(self).history@.len() + 1,
            forall|k: int|
                0 <= k < old(self).history@.len() ==> #[trigger] final(self).history@[k] == old(
                    self,
                ).history@[k],
            is_picture_of(&final(self).history@.last(), &final(self).map),
            final(self).map.dirty,
            final(self).map.width == crate::map::MAP_WIDTH,
            final(self).map.height == crate::map::MAP_HEIGHT,
            forall|i: int|
                0 <= i < final(self).map.area() ==> !#[trigger] final(self).map.revealed_tiles@[i],
            forall|i: int|
                0 <= i < final(self).map.area() ==> !#[trigger] final(self).map.visible_tiles@[i],
            forall|i: int|
                0 <= i < final(self).map.area() ==> (#[trigger] final(self).map.tile_content@[i])@.len()
                    == 0,
    {
        self.map = GameMap::new_map_rooms_and_corridors();
        let ghost generated = self.map;
        self.map.depth = self.depth;
        let ghost dug = self.map;
        proof {
            generated.lemma_layout_carries_over(&dug);
            assert(dug.flags_follow_tiles()) by {}
        }
        let first = self.map.rooms[0];
        let (start_x, start_y) = first.center();
        self.starting_position = Position { x: start_x, y: start_y };
        let last = self.map.rooms[self.map.rooms.len() - 1];
        let (stairs_x, stairs_y) = last.center();
        let stairs_idx = self.map.xy_idx(stairs_x, stairs_y);
        self.map.tiles[stairs_idx] = TileType::DownStairs;
        proof {
            assert(dug.is_open(stairs_x as int, stairs_y as int));
            assert forall|x: int, y: int| dug.is_open(x, y) == self.map.is_open(x, y) by {
                if dug.in_bounds(x, y) {
                    dug.lemma_tile_index(x, y);
                    dug.lemma_tile_index(stairs_x as int, stairs_y as int);
                    if dug.tile_index(x, y) == dug.tile_index(stairs_x as int, stairs_y as int) {
                        dug.lemma_tile_index_is_injective(x, y, stairs_x as int, stairs_y as int);
                    }
                }
            }
            dug.lemma_layout_carries_over(&self.map);
            assert(self.map.flags_follow_tiles()) by {}
        }
        self.take_snapshot();
    }

    /// One monster, a goblin or an orc as a die decides, is put in the
    /// middle of every room but the first, numbered from zero in the
    /// order of the rooms.
    fn spawn_entities(&mut self, ecs: &mut World)
        ensures
            final(ecs).entities@.len() == old(ecs).entities@.len() + old(self).map.rooms@.len() - 1,
            forall|k: int|
                1 <= k < old(self).map.rooms@.len() ==> #[trigger] is_monster_of_room(
                    final(ecs),
                    old(ecs).entities@.len() + k - 1,
                    old(self).map.rooms@[k],
                    k - 1,
                ),
    {
        let count: usize = self.map.rooms.len();
        let mut k: usize = 1;
        while k < count
            invariant
                1 <= k <= count,
                count == self.map.rooms@.len(),
                *self == *old(self),
                self.is_built(),
                old(ecs).wf(),
                ecs.wf(),
                ecs.map == old(ecs).map,
                ecs.map.width == self.map.width,
                ecs.map.height == self.map.height,
                ecs.runstate == old(ecs).runstate,
                ecs.player_entity == old(ecs).player_entity,
                ecs.player_pos == old(ecs).player_pos,
                ecs.gamelog == old(ecs).gamelog,
                ecs.entities@.len() == old(ecs).entities@.len() + k - 1,
                forall|i: int|
                    0 <= i < old(ecs).entities@.len() ==> #[trigger] ecs.entities@[i] == old(ecs).entities@[i],
                forall|j: int|
                    1 <= j < k ==> #[trigger] is_monster_of_room(
                        ecs,
                        old(ecs).entities@.len() + j - 1,
                        self.map.rooms@[j],
                        j - 1,
                    ),
            decreases count - k,
        {
            let room = self.map.rooms[k];
            let (x, y) = room.center();
            let ghost before = *ecs;
            random_monster(ecs, x, y, k - 1);
            proof {
                assert forall|j: int| 1 <= j < k implies #[trigger] is_monster_of_room(
                    ecs,
                    old(ecs).entities@.len() + j - 1,
                    self.map.rooms@[j],
                    j - 1,
                ) by {
                    let place = old(ecs).entities@.len() + j - 1;
                    assert(is_monster_of_room(&before, place, self.map.rooms@[j], j - 1));
                    let roll = choose|roll: int|
                        1 <= roll <= 2 && #[trigger] is_new_monster(
                            &before.at(place),
                            self.map.rooms@[j].center_x(),
                            self.map.rooms@[j].center_y(),
                            roll,
                            j - 1,
                        );
                    assert(is_new_monster(
                        &ecs.at(place),
                        self.map.rooms@[j].center_x(),
                        self.map.rooms@[j].center_y(),
                        roll,
                        j - 1,
                    ));
                }
            }
            k += 1;
        }
    }

    fn get_map(&self) -> (map: GameMap)
        ensures
            is_level_with_stairs(&map, self.depth as int),
    {
        proof {
            self.map.lemma_laid_out_is_connected();
        }
        let map = self.map.duplicate();
        proof {
            lemma_copy_is_level_with_stairs(&self.map, &map, self.depth as int);
            let start = Point { x: self.starting_position.x, y: self.starting_position.y };
            assert forall|x: int, y: int| self.map.is_open(x, y) == map.is_open(x, y) by {}
            assert forall|x: int, y: int| #[trigger] map.is_open(x, y) implies map.joined(
                start,
                point(x, y),
            ) by {
                self.map.lemma_joined_survives(&map, start, point(x, y));
            }
        }
        map
    }

    fn get_starting_position(&self) -> (pos: Position) {
        self.starting_position
    }

    fn get_snapshot_history(&self) -> (history: Vec<GameMap>)
        ensures
            history@.len() == self.history@.len(),
            forall|k: int|
                0 <= k < history@.len() ==> (#[trigger] history@[k]).same_as(&self.history@[k]),
    {
        let mut history: Vec<GameMap> = Vec::new();
        let mut k: usize = 0;
        while k < self.history.len()
            invariant
                k <= self.history@.len(),
                history@.len() == k,
                forall|j: int| 0 <= j < k ==> (#[trigger] history@[j]).same_as(&self.history@[j]),
            decreases self.history@.len() - k,
        {
            history.push(self.history[k].duplicate());
            k += 1;
        }
        history
    }

    /// The picture shows every tile as revealed.
    fn take_snapshot(&mut self)
        ensures
            final(self).map == old(self).map,
            final(self).starting_position == old(self).starting_position,
            final(self).depth == old(self).depth,
            final(self).history@.len() == old(self).history@.len() + 1,
            forall|k: int|
                0 <= k < old(self).history@.len() ==> #[trigger] final(self).history@[k] == old(self).history@[k],
            is_picture_of(&final(self).history@.last(), &old(self).map),
    {
        let mut snapshot = self.map.duplicate();
        let count: usize = snapshot.revealed_tiles.len();
        let mut t: usize = 0;
        while t < count
            invariant
                t <= count,
                count == snapshot.revealed_tiles@.len(),
                count == self.map.revealed_tiles@.len(),
                snapshot.dirty == self.map.dirty,
                snapshot.tiles@ == self.map.tiles@,
                snapshot.rooms@ == self.map.rooms@,
                snapshot.width == self.map.width,
                snapshot.height == self.map.height,
                snapshot.depth == self.map.depth,
                snapshot.visible_tiles@ == self.map.visible_tiles@,
                snapshot.is_walkable@ == self.map.is_walkable@,
                snapshot.is_transparent@ == self.map.is_transparent@,
                snapshot.tile_content@.len() == self.map.tile_content@.len(),
                forall|u: int|
                    0 <= u < snapshot.tile_content@.len() ==> (#[trigger] snapshot.tile_content@[u])@
                        == self.map.tile_content@[u]@,
                forall|u: int| 0 <= u < t ==> #[trigger] snapshot.revealed_tiles@[u],
            decreases count - t,
        {
            snapshot.revealed_tiles[t] = true;
            t += 1;
        }
        self.history.push(snapshot);
    }
}

} // verus!
