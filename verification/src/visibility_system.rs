//! Visibility: what each entity sees, and what the player has seen.
//!
//! Computing a field of view is left to the caller, who passes it in as a
//! function from a tile and a range to the tiles in sight. This module
//! decides whose sight is computed afresh and what is done with the
//! answer.

use crate::components::{Components, Entity};
use crate::geometry::{holds_tile, Point};
use crate::world::{components_fit, World};
use vstd::prelude::*;

verus! {

/// The point is a tile of a map of the given size.
pub open spec fn is_on_map(width: int, height: int, p: Point) -> bool {
    0 <= p.x < width && 0 <= p.y < height
}

/// Those of `seen` that are tiles of a map of the given size, each once,
/// in the order in which `seen` has them first.
pub open spec fn tiles_on_map(width: int, height: int, seen: Seq<Point>) -> Seq<Point>
    decreases seen.len(),
{
    if seen.len() == 0 {
        Seq::empty()
    } else {
        let earlier = tiles_on_map(width, height, seen.drop_last());
        if is_on_map(width, height, seen.last()) && !earlier.contains(seen.last()) {
            earlier.push(seen.last())
        } else {
            earlier
        }
    }
}

/// What an entity sees after its sight was computed afresh is a set, and
/// it is exactly what the field of view holds of the map: no tile is kept
/// twice, and a tile is among the tiles kept if and only if it was seen
/// and lies on the map.
pub proof fn lemma_sight_is_what_was_seen_on_the_map(width: int, height: int, seen: Seq<Point>)
    ensures
        tiles_on_map(width, height, seen).no_duplicates(),
        forall|p: Point| #[trigger]
            tiles_on_map(width, height, seen).contains(p) <==> seen.contains(p) && is_on_map(
                width,
                height,
                p,
            ),
    decreases seen.len(),
{
    if seen.len() > 0 {
        let rest = seen.drop_last();
        let last = seen.last();
        let earlier = tiles_on_map(width, height, rest);
        let kept = tiles_on_map(width, height, seen);
        lemma_sight_is_what_was_seen_on_the_map(width, height, rest);
        assert forall|p: Point| #[trigger] kept.contains(p) <==> seen.contains(p) && is_on_map(
            width,
            height,
            p,
        ) by {
            if seen.contains(p) {
                let k = choose|k: int| 0 <= k < seen.len() && seen[k] == p;
                if k < rest.len() {
                    assert(rest[k] == p);
                }
            }
            if rest.contains(p) {
                let k = choose|k: int| 0 <= k < rest.len() && rest[k] == p;
                assert(seen[k] == p);
            }
            if earlier.contains(p) {
                let k = choose|k: int| 0 <= k < earlier.len() && earlier[k] == p;
                if kept.len() > earlier.len() {
                    assert(kept[k] == p);
                }
            }
            if kept.contains(p) && kept.len() > earlier.len() {
                let k = choose|k: int| 0 <= k < kept.len() && kept[k] == p;
                if k < earlier.len() {
                    assert(earlier[k] == p);
                } else {
                    assert(p == last);
                }
            }
            if p == last {
                assert(seen[seen.len() - 1] == p);
                if kept.len() > earlier.len() {
                    assert(kept[kept.len() - 1] == p);
                }
            }
        }
    }
}

/// Place of the tile `p` in the grids of a map of the given width.
pub open spec fn point_index(width: int, p: Point) -> int {
    p.y * width + p.x
}

/// One of `tiles` has the index `t`.
pub open spec fn lights(width: int, tiles: Seq<Point>, t: int) -> bool {
    exists|k: int| 0 <= k < tiles.len() && #[trigger] point_index(width, tiles[k]) == t
}

impl World {
    /// The living entity at place `i` has sight and a place to see from.
    pub open spec fn can_see(&self, i: int) -> bool {
        &&& self.alive_at(i)
        &&& self.at(i).viewshed is Some
        &&& self.at(i).position is Some
    }

    /// The sight of the entity at place `i` is to be computed afresh.
    pub open spec fn sight_is_stale(&self, i: int) -> bool {
        self.can_see(i) && self.at(i).viewshed->0.dirty
    }

    /// The sight of the player is to be computed afresh at place `i`.
    pub open spec fn player_sight_is_stale(&self, i: int) -> bool {
        self.sight_is_stale(i) && self.at(i).player is Some
    }

    /// The last of the first `n` places at which the player's sight is to
    /// be computed afresh, or -1 where there is none.
    pub open spec fn last_stale_player(&self, n: int) -> int
        decreases n,
    {
        if n <= 0 {
            -1
        } else if self.player_sight_is_stale(n - 1) {
            n - 1
        } else {
            self.last_stale_player(n - 1)
        }
    }

    /// The entity at place `i` of `self` is the one of `before` with its
    /// sight replaced: clean, of the same range, and seeing exactly those
    /// of `seen` that are tiles of the map, each of them once, in the
    /// order in which `seen` has them first.
    pub open spec fn sees_instead(&self, before: &World, i: int, seen: Seq<Point>) -> bool {
        &&& self.alive_at(i)
        &&& self.at(i) == (Components { viewshed: self.at(i).viewshed, ..before.at(i) })
        &&& self.at(i).viewshed is Some
        &&& self.at(i).viewshed->0.range == before.at(i).viewshed->0.range
        &&& !self.at(i).viewshed->0.dirty
        &&& self.at(i).viewshed->0.visible_tiles@ == tiles_on_map(
            before.map.width as int,
            before.map.height as int,
            seen,
        )
        &&& self.at(i).viewshed->0.visible_tiles@.no_duplicates()
        &&& forall|p: Point| #[trigger]
            self.at(i).viewshed->0.visible_tiles@.contains(p) <==> seen.contains(p) && is_on_map(
                before.map.width as int,
                before.map.height as int,
                p,
            )
    }

    /// The sight that the player got afresh at one of the first `n`
    /// places, as `self` holds it, includes the tile with index `t`.
    pub open spec fn lit_afresh(&self, before: &World, n: int, t: int) -> bool {
        exists|j: int|
            0 <= j < n && #[trigger] before.player_sight_is_stale(j) && lights(
                before.map.width as int,
                self.at(j).viewshed->0.visible_tiles@,
                t,
            )
    }

    /// What no sight changes: the tiles, the rooms, the size of the map,
    /// its walkable and transparent flags and tile contents, and the rest
    /// of the shared state.
    pub open spec fn same_but_sight(&self, before: &World) -> bool {
        &&& self.map.dirty == before.map.dirty
        &&& self.map.tiles == before.map.tiles
        &&& self.map.rooms == before.map.rooms
        &&& self.map.width == before.map.width
        &&& self.map.height == before.map.height
        &&& self.map.depth == before.map.depth
        &&& self.map.is_walkable == before.map.is_walkable
        &&& self.map.is_transparent == before.map.is_transparent
        &&& self.map.tile_content == before.map.tile_content
        &&& self.map.revealed_tiles@.len() == before.map.revealed_tiles@.len()
        &&& self.map.visible_tiles@.len() == before.map.visible_tiles@.len()
        &&& self.runstate == before.runstate
        &&& self.player_entity == before.player_entity
        &&& self.player_pos == before.player_pos
        &&& self.gamelog == before.gamelog
        &&& self.entities@.len() == before.entities@.len()
    }
}

/// The tiles of `seen` that lie on the map, each of them kept once.
fn keep_tiles_on_map(width: i32, height: i32, seen: &Vec<Point>) -> (kept: Vec<Point>)
    ensures
        kept@ == tiles_on_map(width as int, height as int, seen@),
        kept@.no_duplicates(),
        forall|p: Point| #[trigger]
            kept@.contains(p) <==> seen@.contains(p) && is_on_map(width as int, height as int, p),
        forall|k: int|
            0 <= k < kept@.len() ==> 0 <= (#[trigger] kept@[k]).x < width && 0 <= kept@[k].y
                < height,
{
    let mut kept: Vec<Point> = Vec::new();
    let mut k: usize = 0;
    while k < seen.len()
        invariant
            k <= seen.len(),
            kept@ == tiles_on_map(width as int, height as int, seen@.take(k as int)),
        decreases seen.len() - k,
    {
        let p = seen[k];
        proof {
            assert(seen@.take(k + 1).drop_last() =~= seen@.take(k as int));
        }
        if 0 <= p.x && p.x < width && 0 <= p.y && p.y < height && !holds_tile(&kept, p) {
            kept.push(p);
        }
        k += 1;
    }
    proof {
        assert(seen@.take(k as int) =~= seen@);
        lemma_sight_is_what_was_seen_on_the_map(width as int, height as int, seen@);
        assert forall|j: int| 0 <= j < kept@.len() implies 0 <= (#[trigger] kept@[j]).x < width
            && 0 <= kept@[j].y < height by {
            assert(kept@.contains(kept@[j]));
        }
    }
    kept
}

/// Keeps the sight of every entity up to date.
pub struct VisibilitySystem {}

impl VisibilitySystem {
    /// Gives the entity the sight `seen`, as far as it lies on the map,
    /// and marks its sight clean. If the entity is the player, the map
    /// shows exactly these tiles as visible, and they are revealed from
    /// now on. An entity that does not exist, or has no sight or no
    /// position, changes nothing.
    pub fn refresh(world: &mut World, entity: Entity, seen: &Vec<Point>)
        requires
            old(world).wf(),
        ensures
            final(world).wf(),
            final(world).same_but_sight(old(world)),
            forall|j: int|
                0 <= j < old(world).entities@.len() && j != entity.id ==> final(world).entities@[j]
                    == old(world).entities@[j],
            !old(world).can_see(entity.id as int) ==> final(world).entities == old(world).entities
                && final(world).map == old(world).map,
            old(world).can_see(entity.id as int) ==> final(world).sees_instead(
                old(world),
                entity.id as int,
                seen@,
            ),
            old(world).can_see(entity.id as int) && old(world).at(entity.id as int).player is None
                ==> final(world).map == old(world).map,
            old(world).can_see(entity.id as int) && old(world).at(entity.id as int).player is Some
                ==> (forall|t: int|
                0 <= t < old(world).map.area() ==> #[trigger] final(world).map.visible_tiles@[t]
                    == lights(
                    old(world).map.width as int,
                    final(world).at(entity.id as int).viewshed->0.visible_tiles@,
                    t,
                )) && (forall|t: int|
                0 <= t < old(world).map.area() ==> #[trigger] final(world).map.revealed_tiles@[t]
                    == (old(world).map.revealed_tiles@[t] || lights(
                    old(world).map.width as int,
                    final(world).at(entity.id as int).viewshed->0.visible_tiles@,
                    t,
                ))),
    {
        if entity.id >= world.entities.len() {
            return ;
        }
        let mut sees = false;
        let mut is_player = false;
        match &world.entities[entity.id] {
            Some(c) => {
                sees = c.position.is_some() && c.viewshed.is_some();
                is_player = c.player.is_some();
            },
            None => {},
        }
        if !sees {
            return ;
        }
        let kept = keep_tiles_on_map(world.map.width, world.map.height, seen);
        let ghost width = world.map.width as int;
        if is_player {
            let count: usize = world.map.visible_tiles.len();
            let mut t: usize = 0;
            while t < count
                invariant
                    t <= count,
                    count == world.map.area(),
                    world.map.wf(),
                    world.same_but_sight(old(world)),
                    world.entities == old(world).entities,
                    world.map.revealed_tiles == old(world).map.revealed_tiles,
                    forall|u: int| 0 <= u < t ==> !#[trigger] world.map.visible_tiles@[u],
                decreases count - t,
            {
                world.map.visible_tiles[t] = false;
                t += 1;
            }
            let mut k: usize = 0;
            while k < kept.len()
                invariant
                    k <= kept.len(),
                    world.map.wf(),
                    world.same_but_sight(old(world)),
                    world.entities == old(world).entities,
                    width == world.map.width,
                    forall|j: int|
                        0 <= j < kept@.len() ==> 0 <= (#[trigger] kept@[j]).x < world.map.width && 0
                            <= kept@[j].y < world.map.height,
                    forall|u: int|
                        0 <= u < world.map.area() ==> #[trigger] world.map.visible_tiles@[u]
                            == lights(width, kept@.take(k as int), u),
                    forall|u: int|
                        0 <= u < world.map.area() ==> #[trigger] world.map.revealed_tiles@[u] == (
                        old(world).map.revealed_tiles@[u] || lights(
                            width,
                            kept@.take(k as int),
                            u,
                        )),
                decreases kept.len() - k,
            {
                let p = kept[k];
                let idx = world.map.xy_idx(p.x, p.y);
                world.map.revealed_tiles[idx] = true;
                world.map.visible_tiles[idx] = true;
                proof {
                    let shorter = kept@.take(k as int);
                    let longer = kept@.take(k + 1);
                    assert(point_index(width, longer[k as int]) == idx);
                    assert forall|u: int| lights(width, longer, u) == (lights(width, shorter, u)
                        || u == idx) by {
                        if lights(width, shorter, u) {
                            let j = choose|j: int|
                                0 <= j < shorter.len() && #[trigger] point_index(width, shorter[j])
                                    == u;
                            assert(point_index(width, longer[j]) == u);
                        }
                        if lights(width, longer, u) && u != idx {
                            let j = choose|j: int|
                                0 <= j < longer.len() && #[trigger] point_index(width, longer[j])
                                    == u;
                            assert(point_index(width, shorter[j]) == u);
                        }
                    }
                }
                k += 1;
            }
            assert(kept@.take(k as int) =~= kept@);
        }
        match &mut world.entities[entity.id] {
            Some(c) => {
                match &mut c.viewshed {
                    Some(viewshed) => {
                        viewshed.dirty = false;
                        viewshed.visible_tiles = kept;
                    },
                    None => {},
                }
            },
            None => {},
        }
        proof {
            assert forall|i: int| #[trigger] world.alive_at(i) implies components_fit(
                &world.map,
                &world.at(i),
            ) by {
                assert(old(world).alive_at(i));
            }
        }
    }

    /// `after` is `before` once every stale sight was computed afresh
    /// with answers of `field_of_view`: each entity whose sight was stale
    /// sees, of one answer for its tile and range, the tiles that lie on
    /// the map, and its sight is clean; the map shows as visible what the
    /// last player with a stale sight sees, and has revealed, besides what
    /// it had, what every such player sees; nothing else has changed.
    pub open spec fn ran<F: Fn(i32, i32, i32) -> Vec<Point>>(
        before: &World,
        after: &World,
        field_of_view: F,
    ) -> bool {
        &&& after.same_but_sight(before)
        &&& forall|i: int|
            0 <= i < before.entities@.len() && !before.sight_is_stale(i)
                ==> #[trigger] after.entities@[i] == before.entities@[i]
        &&& forall|i: int| #[trigger]
            before.sight_is_stale(i) ==> exists|seen: Vec<Point>|
                call_ensures(
                    field_of_view,
                    (
                        before.at(i).position->0.x,
                        before.at(i).position->0.y,
                        before.at(i).viewshed->0.range,
                    ),
                    seen,
                ) && #[trigger] after.sees_instead(before, i, seen@)
        &&& before.last_stale_player(before.capacity()) < 0 ==> after.map == before.map
        &&& before.last_stale_player(before.capacity()) >= 0 ==> (forall|t: int|
            0 <= t < before.map.area() ==> #[trigger] after.map.visible_tiles@[t] == lights(
                before.map.width as int,
                after.at(before.last_stale_player(before.capacity())).viewshed->0.visible_tiles@,
                t,
            ))
        &&& forall|t: int|
            0 <= t < before.map.area() ==> #[trigger] after.map.revealed_tiles@[t] == (
            before.map.revealed_tiles@[t] || after.lit_afresh(before, before.capacity(), t))
    }

    /// Computes afresh the sight of every entity whose sight is marked
    /// dirty and that has a position, in the order of the handles: asks
    /// `field_of_view` for the tiles in sight from the entity's tile
    /// within its range, and hands the answer to `refresh`. Whatever
    /// `field_of_view` answers, each such entity ends with a clean sight
    /// that holds one of its answers as far as it lies on the map; the
    /// map shows as visible what the player saw last, and has revealed
    /// all that the player saw.
    pub fn run<F: Fn(i32, i32, i32) -> Vec<Point>>(&mut self, world: &mut World, field_of_view: &F)
        requires
            old(world).wf(),
            forall|x: i32, y: i32, range: i32| call_requires(*field_of_view, (x, y, range)),
        ensures
            final(world).wf(),
            Self::ran(old(world), final(world), *field_of_view),
    {
        let n: usize = world.entities.len();
        let mut i: usize = 0;
        while i < n
            invariant
                i <= n,
                n == old(world).entities@.len(),
                old(world).wf(),
                world.wf(),
                world.same_but_sight(old(world)),
                forall|x: i32, y: i32, range: i32| call_requires(*field_of_view, (x, y, range)),
                forall|j: int|
                    0 <= j < n && (j >= i || !old(world).sight_is_stale(j))
                        ==> #[trigger] world.entities@[j] == old(world).entities@[j],
                forall|j: int|
                    0 <= j < i && #[trigger] old(world).sight_is_stale(j) ==> exists|
                        seen: Vec<Point>,
                    |
                        call_ensures(
                            *field_of_view,
                            (
                                old(world).at(j).position->0.x,
                                old(world).at(j).position->0.y,
                                old(world).at(j).viewshed->0.range,
                            ),
                            seen,
                        ) && #[trigger] world.sees_instead(old(world), j, seen@),
                old(world).last_stale_player(i as int) < 0 ==> world.map == old(world).map,
                old(world).last_stale_player(i as int) >= 0 ==> (forall|t: int|
                    0 <= t < old(world).map.area() ==> #[trigger] world.map.visible_tiles@[t]
                        == lights(
                        old(world).map.width as int,
                        world.at(old(world).last_stale_player(i as int)).viewshed->0.visible_tiles@,
                        t,
                    )),
                -1 <= old(world).last_stale_player(i as int) < i,
                forall|t: int|
                    0 <= t < old(world).map.area() ==> #[trigger] world.map.revealed_tiles@[t] == (
                    old(world).map.revealed_tiles@[t] || world.lit_afresh(old(world), i as int, t)),
            decreases n - i,
        {
            let ghost before = *world;
            let mut request: Option<(i32, i32, i32)> = None;
            match &world.entities[i] {
                Some(c) => {
                    match (&c.position, &c.viewshed) {
                        (Some(pos), Some(viewshed)) => {
                            if viewshed.dirty {
                                request = Some((pos.x, pos.y, viewshed.range));
                            }
                        },
                        _ => {},
                    }
                },
                None => {},
            }
            match request {
                Some((x, y, range)) => {
                    let seen = field_of_view(x, y, range);
                    Self::refresh(world, Entity { id: i }, &seen);
                    proof {
                        assert(world.sees_instead(old(world), i as int, seen@));
                        assert forall|j: int|
                            0 <= j < i && #[trigger] old(world).sight_is_stale(j) implies exists|
                            seen: Vec<Point>,
                        |
                            call_ensures(
                                *field_of_view,
                                (
                                    old(world).at(j).position->0.x,
                                    old(world).at(j).position->0.y,
                                    old(world).at(j).viewshed->0.range,
                                ),
                                seen,
                            ) && #[trigger] world.sees_instead(old(world), j, seen@) by {
                            let earlier = choose|earlier: Vec<Point>|
                                call_ensures(
                                    *field_of_view,
                                    (
                                        old(world).at(j).position->0.x,
                                        old(world).at(j).position->0.y,
                                        old(world).at(j).viewshed->0.range,
                                    ),
                                    earlier,
                                ) && #[trigger] before.sees_instead(old(world), j, earlier@);
                            assert(world.sees_instead(old(world), j, earlier@));
                        }
                        assert forall|t: int| 0 <= t < old(world).map.area() implies (
                        #[trigger] world.lit_afresh(old(world), i + 1, t) == (before.lit_afresh(
                            old(world),
                            i as int,
                            t,
                        ) || (old(world).player_sight_is_stale(i as int) && lights(
                            old(world).map.width as int,
                            world.at(i as int).viewshed->0.visible_tiles@,
                            t,
                        )))) by {
                            lemma_lit_afresh_step(*world, before, *old(world), i as int, t);
                        }
                    }
                },
                None => {
                    proof {
                        assert forall|t: int| 0 <= t < old(world).map.area() implies (
                        #[trigger] world.lit_afresh(old(world), i + 1, t) == before.lit_afresh(
                            old(world),
                            i as int,
                            t,
                        )) by {
                            lemma_lit_afresh_step(*world, before, *old(world), i as int, t);
                        }
                    }
                },
            }
            i += 1;
        }
    }
}

/// How the tiles that the player saw afresh grow by one place: `after`
/// agrees with `earlier` on the first `i` places.
proof fn lemma_lit_afresh_step(after: World, earlier: World, before: World, i: int, t: int)
    requires
        0 <= i < after.entities@.len(),
        after.entities@.len() == earlier.entities@.len(),
        forall|j: int| 0 <= j < i ==> after.entities@[j] == earlier.entities@[j],
    ensures
        after.lit_afresh(&before, i + 1, t) == (earlier.lit_afresh(&before, i, t) || (
        before.player_sight_is_stale(i) && lights(
            before.map.width as int,
            after.at(i).viewshed->0.visible_tiles@,
            t,
        ))),
{
    if earlier.lit_afresh(&before, i, t) {
        let j = choose|j: int|
            0 <= j < i && #[trigger] before.player_sight_is_stale(j) && lights(
                before.map.width as int,
                earlier.at(j).viewshed->0.visible_tiles@,
                t,
            );
        assert(after.entities@[j] == earlier.entities@[j]);
    }
    if after.lit_afresh(&before, i + 1, t) {
        let j = choose|j: int|
            0 <= j < i + 1 && #[trigger] before.player_sight_is_stale(j) && lights(
                before.map.width as int,
                after.at(j).viewshed->0.visible_tiles@,
                t,
            );
        if j < i {
            assert(after.entities@[j] == earlier.entities@[j]);
        }
    }
}

} // verus!
