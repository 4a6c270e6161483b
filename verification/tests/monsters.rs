use dworld::{
    BlocksTile, CombatStats, Components, Entity, GameMap, MapIndexingSystem, Monster, MonsterAI,
    MonsterPlan, Name, Player, Point, Position, RunState, TileType, Viewshed, WantsToMelee, World,
};

/// A map of three rows whose middle row is a corridor of `length` tiles.
fn corridor(length: i32) -> GameMap {
    let mut map = GameMap::new(length, 3);
    for x in 0..length {
        let idx = map.xy_idx(x, 1);
        map.tiles[idx] = TileType::Floor;
    }
    map.recompute_map();
    map
}

fn open_map(width: i32, height: i32) -> GameMap {
    let mut map = GameMap::new(width, height);
    for tile in map.tiles.iter_mut() {
        *tile = TileType::Floor;
    }
    map.recompute_map();
    map
}

fn monster(x: i32, y: i32, sees: Vec<Point>) -> Components {
    Components {
        position: Some(Position { x, y }),
        viewshed: Some(Viewshed { visible_tiles: sees, range: 8, dirty: false }),
        monster: Some(Monster {}),
        name: Some(Name { name: "Orc #0".to_string() }),
        blocks_tile: Some(BlocksTile {}),
        combat_stats: Some(CombatStats {
            max_hp: 5,
            curr_hp: 5,
            armor: 2,
            magic_res: 4,
            power: 3,
            max_mana: 50,
            curr_mana: 50,
        }),
        ..Components::default()
    }
}

fn hero(x: i32, y: i32) -> Components {
    Components {
        position: Some(Position { x, y }),
        player: Some(Player {}),
        viewshed: Some(Viewshed { visible_tiles: Vec::new(), range: 8, dirty: false }),
        name: Some(Name { name: "Player".to_string() }),
        ..Components::default()
    }
}

/// A world in the monsters' turn with the player at `(px, py)`, indexed.
fn world_with_player(map: GameMap, px: i32, py: i32) -> (World, Entity) {
    let mut world = World::new(map);
    let player = world.create_entity(hero(px, py));
    world.player_entity = player;
    world.player_pos = Point::new(px, py);
    world.runstate = RunState::MonsterTurn;
    (world, player)
}

fn toward(from: Point, to: Point) -> Option<Point> {
    Some(Point::new(from.x + (to.x - from.x).signum(), from.y + (to.y - from.y).signum()))
}

fn position(world: &World, entity: Entity) -> (i32, i32) {
    let p = world.get(entity).unwrap().position.unwrap();
    (p.x, p.y)
}

#[test]
fn corridor_chase_moves_the_monster_one_step() {
    let (mut world, _) = world_with_player(corridor(10), 9, 1);
    let orc = world.create_entity(monster(0, 1, vec![Point::new(0, 1), Point::new(9, 1)]));
    MapIndexingSystem {}.run(&mut world);
    assert_eq!(
        MonsterAI::plan(&world, orc),
        MonsterPlan::Chase { from: Point::new(0, 1), to: Point::new(9, 1) }
    );
    MonsterAI {}.run(&mut world, &toward);
    assert_eq!(position(&world, orc), (1, 1));
    assert!(world.get(orc).unwrap().viewshed.as_ref().unwrap().dirty);
    assert!(world.get(orc).unwrap().wants_to_melee.is_none());
    assert!(world.map.is_walkable[world.map.xy_idx(0, 1)]);
    assert!(!world.map.is_walkable[world.map.xy_idx(1, 1)]);
}

#[test]
fn a_monster_never_steps_into_a_wall_or_off_the_map() {
    for step in [Point::new(0, 0), Point::new(1, 2), Point::new(-1, 1), Point::new(0, 3)] {
        let (mut world, _) = world_with_player(corridor(10), 9, 1);
        let orc = world.create_entity(monster(0, 1, vec![Point::new(9, 1)]));
        MapIndexingSystem {}.run(&mut world);
        let walkable = world.map.is_walkable.clone();
        MonsterAI {}.run(&mut world, &|_: Point, _: Point| Some(step));
        assert_eq!(position(&world, orc), (0, 1));
        assert_eq!(world.map.is_walkable, walkable);
        assert!(world.get(orc).unwrap().viewshed.as_ref().unwrap().dirty);
    }
}

#[test]
fn a_monster_does_not_step_onto_a_wall_that_is_flagged_walkable() {
    let (mut world, _) = world_with_player(corridor(10), 9, 1);
    let orc = world.create_entity(monster(0, 1, vec![Point::new(9, 1)]));
    MapIndexingSystem {}.run(&mut world);
    let wall = world.map.xy_idx(1, 0);
    world.map.is_walkable[wall] = true;
    MonsterAI {}.run(&mut world, &|_: Point, _: Point| Some(Point::new(1, 0)));
    assert_eq!(position(&world, orc), (0, 1));
    assert!(world.map.is_walkable[wall]);
    assert!(!world.map.is_walkable[world.map.xy_idx(0, 1)]);
}

#[test]
fn a_monster_never_moves_more_than_one_step() {
    for step in [Point::new(2, 1), Point::new(9, 1), Point::new(0, 1)] {
        let (mut world, _) = world_with_player(corridor(10), 9, 1);
        let orc = world.create_entity(monster(0, 1, vec![Point::new(9, 1)]));
        MapIndexingSystem {}.run(&mut world);
        MonsterAI {}.run(&mut world, &|_: Point, _: Point| Some(step));
        assert_eq!(position(&world, orc), (0, 1));
    }
}

#[test]
fn a_monster_without_a_path_stays() {
    let (mut world, _) = world_with_player(corridor(10), 9, 1);
    let orc = world.create_entity(monster(0, 1, vec![Point::new(9, 1)]));
    MapIndexingSystem {}.run(&mut world);
    MonsterAI {}.run(&mut world, &|_: Point, _: Point| None);
    assert_eq!(position(&world, orc), (0, 1));
    assert!(world.get(orc).unwrap().viewshed.as_ref().unwrap().dirty);
}

#[test]
fn a_monster_next_to_the_player_attacks_and_stays() {
    for (x, y) in [(4, 4), (5, 4), (6, 4), (4, 5), (6, 5), (4, 6), (5, 6), (6, 6), (5, 5)] {
        let (mut world, player) = world_with_player(open_map(10, 10), 5, 5);
        let orc = world.create_entity(monster(x, y, vec![Point::new(5, 5)]));
        MapIndexingSystem {}.run(&mut world);
        assert_eq!(MonsterAI::plan(&world, orc), MonsterPlan::Attack);
        let asked = std::cell::Cell::new(false);
        MonsterAI {}.run(&mut world, &|from: Point, to: Point| {
            asked.set(true);
            toward(from, to)
        });
        assert!(!asked.get());
        assert_eq!(position(&world, orc), (x, y));
        assert_eq!(world.get(orc).unwrap().wants_to_melee, Some(WantsToMelee { target: player }));
        assert!(world.get(orc).unwrap().viewshed.as_ref().unwrap().dirty);
    }
}

#[test]
fn a_monster_that_does_not_see_the_player_idles() {
    let (mut world, _) = world_with_player(open_map(10, 10), 5, 5);
    let orc = world.create_entity(monster(2, 5, vec![Point::new(2, 5), Point::new(3, 5)]));
    MapIndexingSystem {}.run(&mut world);
    assert_eq!(MonsterAI::plan(&world, orc), MonsterPlan::Idle);
    let asked = std::cell::Cell::new(false);
    MonsterAI {}.run(&mut world, &|from: Point, to: Point| {
        asked.set(true);
        toward(from, to)
    });
    assert!(!asked.get());
    assert_eq!(position(&world, orc), (2, 5));
    assert!(world.get(orc).unwrap().wants_to_melee.is_none());
    assert!(world.get(orc).unwrap().viewshed.as_ref().unwrap().dirty);
}

#[test]
fn two_monsters_do_not_step_onto_the_same_tile() {
    let (mut world, _) = world_with_player(open_map(10, 10), 8, 5);
    let first = world.create_entity(monster(3, 4, vec![Point::new(8, 5)]));
    let second = world.create_entity(monster(3, 6, vec![Point::new(8, 5)]));
    MapIndexingSystem {}.run(&mut world);
    MonsterAI {}.run(&mut world, &|_: Point, _: Point| Some(Point::new(4, 5)));
    assert_eq!(position(&world, first), (4, 5));
    assert_eq!(position(&world, second), (3, 6));
    assert!(world.map.is_walkable[world.map.xy_idx(3, 4)]);
    assert!(!world.map.is_walkable[world.map.xy_idx(4, 5)]);
    assert!(!world.map.is_walkable[world.map.xy_idx(3, 6)]);
}

#[test]
fn a_monster_can_follow_into_the_tile_another_left() {
    let (mut world, _) = world_with_player(corridor(10), 9, 1);
    let front = world.create_entity(monster(3, 1, vec![Point::new(9, 1)]));
    let back = world.create_entity(monster(2, 1, vec![Point::new(9, 1)]));
    MapIndexingSystem {}.run(&mut world);
    MonsterAI {}.run(&mut world, &toward);
    assert_eq!(position(&world, front), (4, 1));
    assert_eq!(position(&world, back), (3, 1));
}

#[test]
fn monsters_act_only_in_their_turn() {
    for state in [RunState::PreRun, RunState::AwaitingInput, RunState::PlayerTurn] {
        let (mut world, _) = world_with_player(corridor(10), 9, 1);
        let orc = world.create_entity(monster(0, 1, vec![Point::new(9, 1)]));
        let near = world.create_entity(monster(8, 1, vec![Point::new(9, 1)]));
        MapIndexingSystem {}.run(&mut world);
        world.runstate = state;
        MonsterAI {}.run(&mut world, &toward);
        assert_eq!(position(&world, orc), (0, 1));
        assert!(!world.get(orc).unwrap().viewshed.as_ref().unwrap().dirty);
        assert!(world.get(near).unwrap().wants_to_melee.is_none());
    }
}

#[test]
fn act_ignores_who_is_no_monster() {
    let (mut world, player) = world_with_player(corridor(10), 8, 1);
    let rock = world.create_entity(Components {
        position: Some(Position { x: 2, y: 1 }),
        viewshed: Some(Viewshed { visible_tiles: vec![Point::new(8, 1)], range: 8, dirty: false }),
        ..Components::default()
    });
    MapIndexingSystem {}.run(&mut world);
    assert_eq!(MonsterAI::plan(&world, rock), MonsterPlan::Idle);
    assert_eq!(MonsterAI::plan(&world, player), MonsterPlan::Idle);
    assert_eq!(MonsterAI::plan(&world, Entity { id: 40 }), MonsterPlan::Idle);
    MonsterAI::act(&mut world, rock, Some(Point::new(3, 1)));
    MonsterAI::act(&mut world, Entity { id: 40 }, Some(Point::new(3, 1)));
    assert_eq!(position(&world, rock), (2, 1));
    assert!(!world.get(rock).unwrap().viewshed.as_ref().unwrap().dirty);
}

#[test]
fn act_moves_a_chasing_monster_onto_a_walkable_neighbour() {
    let (mut world, _) = world_with_player(open_map(10, 10), 8, 8);
    let orc = world.create_entity(monster(2, 2, vec![Point::new(8, 8)]));
    MapIndexingSystem {}.run(&mut world);
    MonsterAI::act(&mut world, orc, Some(Point::new(3, 3)));
    assert_eq!(position(&world, orc), (3, 3));
    assert!(world.map.is_walkable[world.map.xy_idx(2, 2)]);
    assert!(!world.map.is_walkable[world.map.xy_idx(3, 3)]);
}
