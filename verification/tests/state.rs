use dworld::map_builders::builder_for_roll;
use dworld::spawner;
use dworld::{
    random_builder, BlocksTile, BuilderKind, CombatStats, Color, Components, Entity, GameInfo,
    GameMap, Key, KeyboardTestSystem, MapBuilder, Monster, Name, Player, Point, Position,
    Renderable, RunState, SimpleMapBuilder, State, TileType, Viewshed, World,
};

fn open_map(width: i32, height: i32) -> GameMap {
    let mut map = GameMap::new(width, height);
    for tile in map.tiles.iter_mut() {
        *tile = TileType::Floor;
    }
    map.recompute_map();
    map
}

fn disc(x: i32, y: i32, range: i32) -> Vec<Point> {
    let mut seen = Vec::new();
    for ty in y - range..=y + range {
        for tx in x - range..=x + range {
            if (tx - x) * (tx - x) + (ty - y) * (ty - y) <= range * range {
                seen.push(Point::new(tx, ty));
            }
        }
    }
    seen
}

fn toward(from: Point, to: Point) -> Option<Point> {
    Some(Point::new(from.x + (to.x - from.x).signum(), from.y + (to.y - from.y).signum()))
}

fn open_tiles(map: &GameMap) -> usize {
    map.tiles.iter().filter(|t| **t != TileType::Wall).count()
}

fn walk_from(map: &GameMap, x: i32, y: i32) -> usize {
    let mut seen = vec![false; map.tiles.len()];
    let mut stack = vec![(x, y)];
    let mut count = 0;
    while let Some((x, y)) = stack.pop() {
        if !map.contains(x, y) {
            continue;
        }
        let idx = map.xy_idx(x, y);
        if seen[idx] || map.tiles[idx] == TileType::Wall {
            continue;
        }
        seen[idx] = true;
        count += 1;
        stack.push((x + 1, y));
        stack.push((x - 1, y));
        stack.push((x, y + 1));
        stack.push((x, y - 1));
    }
    count
}

/// A game on an open map with the player at (2, 2) and an orc at (7, 2).
fn small_game() -> (State, Entity, Entity) {
    let mut world = World::new(open_map(10, 5));
    let player = spawner::player(&mut world, 2, 2);
    let orc = spawner::monster(&mut world, 7, 2, 2, 0);
    (State { ecs: world }, player, orc)
}

fn position(world: &World, entity: Entity) -> (i32, i32) {
    let p = world.get(entity).unwrap().position.unwrap();
    (p.x, p.y)
}

#[test]
fn game_info_starts_at_zero() {
    let info = GameInfo::default();
    assert_eq!(info.tile_width, 0);
    assert_eq!(info.tile_height, 0);
    assert_eq!(info.tilemap_width, 0);
    assert_eq!(info.tilemap_height, 0);
}

#[test]
fn keyboard_test_system_can_be_made() {
    let _system = KeyboardTestSystem::default();
}

#[test]
fn the_spawned_player_has_its_stats() {
    let mut world = World::new(open_map(10, 5));
    let player = spawner::player(&mut world, 3, 4);
    assert_eq!(world.player_entity, player);
    assert_eq!(world.player_pos, Point::new(3, 4));
    let c = world.get(player).unwrap();
    assert_eq!(c.position, Some(Position { x: 3, y: 4 }));
    assert_eq!(
        c.renderable,
        Some(Renderable {
            glyph: '@',
            fg: Color { r: 255, g: 255, b: 255 },
            bg: Color { r: 0, g: 0, b: 0 }
        })
    );
    assert_eq!(c.player, Some(Player {}));
    assert_eq!(c.monster, None);
    assert_eq!(c.blocks_tile, None);
    assert_eq!(c.name.as_ref().unwrap().name, "Player");
    assert_eq!(
        c.combat_stats,
        Some(CombatStats {
            max_hp: 30,
            curr_hp: 30,
            armor: 2,
            magic_res: 4,
            power: 4,
            max_mana: 50,
            curr_mana: 50
        })
    );
    let viewshed = c.viewshed.as_ref().unwrap();
    assert!(viewshed.visible_tiles.is_empty());
    assert_eq!(viewshed.range, 8);
    assert!(viewshed.dirty);
}

#[test]
fn the_die_decides_between_goblin_and_orc() {
    let mut world = World::new(open_map(10, 5));
    let goblin = spawner::monster(&mut world, 1, 1, 1, 0);
    let orc = spawner::monster(&mut world, 2, 1, 2, 7);
    let g = world.get(goblin).unwrap();
    let o = world.get(orc).unwrap();
    assert_eq!(g.name.as_ref().unwrap().name, "Goblin #0");
    assert_eq!(o.name.as_ref().unwrap().name, "Orc #7");
    assert_eq!(g.renderable.unwrap().glyph, 'g');
    assert_eq!(o.renderable.unwrap().glyph, 'o');
    assert_eq!(o.renderable.unwrap().fg, Color { r: 255, g: 0, b: 0 });
    assert_eq!(o.renderable.unwrap().bg, Color { r: 0, g: 0, b: 0 });
    for c in [g, o] {
        assert_eq!(c.monster, Some(Monster {}));
        assert_eq!(c.blocks_tile, Some(BlocksTile {}));
        assert_eq!(c.player, None);
        assert_eq!(
            c.combat_stats,
            Some(CombatStats {
                max_hp: 5,
                curr_hp: 5,
                armor: 2,
                magic_res: 4,
                power: 3,
                max_mana: 50,
                curr_mana: 50
            })
        );
        assert_eq!(c.viewshed.as_ref().unwrap().range, 8);
        assert!(c.viewshed.as_ref().unwrap().dirty);
    }
    assert_eq!(o.position, Some(Position { x: 2, y: 1 }));
}

#[test]
fn random_monsters_are_goblins_and_orcs() {
    let mut world = World::new(open_map(10, 5));
    let mut goblins = 0;
    let mut orcs = 0;
    for number in 0..200 {
        let e = spawner::random_monster(&mut world, 1, 1, number);
        let c = world.get(e).unwrap();
        let name = c.name.as_ref().unwrap().name.clone();
        if name == format!("Goblin #{}", number) {
            assert_eq!(c.renderable.unwrap().glyph, 'g');
            goblins += 1;
        } else {
            assert_eq!(name, format!("Orc #{}", number));
            assert_eq!(c.renderable.unwrap().glyph, 'o');
            orcs += 1;
        }
    }
    assert!(goblins > 0);
    assert!(orcs > 0);
}

#[test]
fn each_roll_picks_its_strategy() {
    let expected = [
        BuilderKind::BspDungeon,
        BuilderKind::BspInterior,
        BuilderKind::CellularAutomata,
        BuilderKind::DrunkardOpenArea,
        BuilderKind::DrunkardOpenHalls,
        BuilderKind::DrunkardWindingPassages,
        BuilderKind::DrunkardFatPassages,
        BuilderKind::DrunkardFearfulSymmetry,
        BuilderKind::Maze,
        BuilderKind::DlaWalkInwards,
        BuilderKind::DlaWalkOutwards,
        BuilderKind::DlaCentralAttractor,
        BuilderKind::DlaInsectoid,
        BuilderKind::Simple,
    ];
    for (k, kind) in expected.iter().enumerate() {
        assert_eq!(builder_for_roll(k as i32 + 1), *kind);
    }
    assert_eq!(builder_for_roll(0), BuilderKind::Simple);
    assert_eq!(builder_for_roll(15), BuilderKind::Simple);
    assert_eq!(builder_for_roll(-3), BuilderKind::Simple);
}

#[test]
fn the_random_builder_plans_for_the_depth_and_varies() {
    let mut kinds = Vec::new();
    for _ in 0..300 {
        let plan = random_builder(4);
        assert_eq!(plan.depth, 4);
        if !kinds.contains(&plan.kind) {
            kinds.push(plan.kind);
        }
    }
    assert!(kinds.len() > 1);
}

#[test]
fn only_the_plan_for_rooms_and_corridors_has_a_builder() {
    let plan = dworld::BuilderPlan { kind: BuilderKind::Simple, depth: 6 };
    let builder = plan.simple_builder().unwrap();
    assert_eq!(builder.depth, 6);
    assert_eq!(builder.map.width, 60);
    assert_eq!(builder.map.height, 40);
    assert!(builder.map.tiles.iter().all(|t| *t == TileType::Wall));
    assert!(builder.map.rooms.is_empty());
    assert!(builder.history.is_empty());
    for kind in [BuilderKind::BspDungeon, BuilderKind::Maze, BuilderKind::DlaInsectoid] {
        assert!(dworld::BuilderPlan { kind, depth: 6 }.simple_builder().is_none());
    }
}

#[test]
fn the_simple_builder_builds_a_connected_level_with_stairs() {
    for _ in 0..20 {
        let mut builder = SimpleMapBuilder::new(3);
        builder.build_map();
        let map = builder.get_map();
        let start = builder.get_starting_position();
        assert_eq!(map.depth, 3);
        assert_eq!((start.x, start.y), map.rooms[0].center());
        let (sx, sy) = map.rooms[map.rooms.len() - 1].center();
        assert_eq!(map.tiles[map.xy_idx(sx, sy)], TileType::DownStairs);
        assert_eq!(map.tiles.iter().filter(|t| **t == TileType::DownStairs).count(), 1);
        assert_eq!(walk_from(&map, start.x, start.y), open_tiles(&map));
        for idx in 0..map.tiles.len() {
            let open = map.tiles[idx] != TileType::Wall;
            assert_eq!(map.is_walkable[idx], open);
            assert_eq!(map.is_transparent[idx], open);
        }
    }
}

#[test]
fn the_simple_builder_puts_a_monster_in_every_room_but_the_first() {
    let mut builder = SimpleMapBuilder::new(1);
    builder.build_map();
    let mut world = World::new(builder.get_map());
    let player = spawner::player(&mut world, 1, 1);
    builder.spawn_entities(&mut world);
    let rooms = world.map.rooms.clone();
    assert_eq!(world.entities.len(), rooms.len());
    assert_eq!(world.player_entity, player);
    for (k, room) in rooms.iter().enumerate().skip(1) {
        let c = world.get(Entity { id: k }).unwrap();
        let (x, y) = room.center();
        assert_eq!(c.position, Some(Position { x, y }));
        assert_eq!(c.monster, Some(Monster {}));
        let name = c.name.as_ref().unwrap().name.clone();
        assert!(
            name == format!("Goblin #{}", k - 1) || name == format!("Orc #{}", k - 1),
            "{}",
            name
        );
    }
}

#[test]
fn the_simple_builder_takes_pictures_with_all_revealed() {
    let mut builder = SimpleMapBuilder::new(1);
    assert!(builder.get_snapshot_history().is_empty());
    builder.build_map();
    builder.take_snapshot();
    let history = builder.get_snapshot_history();
    assert_eq!(history.len(), 2);
    for picture in history.iter() {
        assert_eq!(picture.tiles, builder.map.tiles);
        assert!(picture.revealed_tiles.iter().all(|r| *r));
    }
    assert!(builder.map.revealed_tiles.iter().all(|r| !*r));
}

#[test]
fn a_new_game_has_the_player_in_the_first_room() {
    let gs = State::new();
    let world = &gs.ecs;
    assert_eq!(world.runstate, RunState::PreRun);
    assert_eq!(world.player_entity, Entity { id: 0 });
    assert_eq!(world.entities.len(), world.map.rooms.len());
    let (x, y) = world.map.rooms[0].center();
    assert_eq!(world.player_pos, Point::new(x, y));
    assert_eq!(position(world, world.player_entity), (x, y));
    assert_eq!(world.gamelog.entries, vec!["Welcome to DWorld!".to_string()]);
    assert_eq!(world.map.depth, 1);
    assert_eq!(walk_from(&world.map, x, y), open_tiles(&world.map));
}

#[test]
fn the_phases_follow_each_other() {
    let (mut gs, _, _) = small_game();
    assert_eq!(gs.ecs.runstate, RunState::PreRun);
    assert!(!gs.tick(None, false, false, &disc, &toward));
    assert_eq!(gs.ecs.runstate, RunState::AwaitingInput);
    assert!(!gs.tick(None, false, false, &disc, &toward));
    assert_eq!(gs.ecs.runstate, RunState::AwaitingInput);
    assert!(!gs.tick(Some(Key::Other), false, false, &disc, &toward));
    assert_eq!(gs.ecs.runstate, RunState::AwaitingInput);
    assert!(!gs.tick(Some(Key::Space), false, false, &disc, &toward));
    assert_eq!(gs.ecs.runstate, RunState::PlayerTurn);
    assert!(!gs.tick(Some(Key::Left), false, false, &disc, &toward));
    assert_eq!(gs.ecs.runstate, RunState::MonsterTurn);
    assert!(!gs.tick(Some(Key::Left), false, false, &disc, &toward));
    assert_eq!(gs.ecs.runstate, RunState::AwaitingInput);
    assert!(!gs.tick(Some(Key::Escape), false, false, &disc, &toward));
    assert_eq!(gs.ecs.runstate, RunState::ExitGame);
    assert!(gs.tick(None, false, false, &disc, &toward));
    assert_eq!(gs.ecs.runstate, RunState::ExitGame);
}

#[test]
fn the_first_tick_lights_the_map_and_indexes_it() {
    let (mut gs, player, orc) = small_game();
    gs.tick(None, false, false, &disc, &toward);
    let world = &gs.ecs;
    assert!(!world.get(player).unwrap().viewshed.as_ref().unwrap().dirty);
    assert!(!world.get(orc).unwrap().viewshed.as_ref().unwrap().dirty);
    assert!(world.map.visible_tiles[world.map.xy_idx(2, 2)]);
    assert!(world.map.revealed_tiles[world.map.xy_idx(2, 2)]);
    assert_eq!(world.map.tile_content[world.map.xy_idx(7, 2)], vec![orc]);
    assert_eq!(world.map.tile_content[world.map.xy_idx(2, 2)], vec![player]);
    assert!(!world.map.is_walkable[world.map.xy_idx(7, 2)]);
    assert!(world.map.is_walkable[world.map.xy_idx(2, 2)]);
    assert_eq!(position(world, orc), (7, 2));
}

#[test]
fn monsters_move_only_in_the_monster_turn() {
    let (mut gs, player, orc) = small_game();
    gs.tick(None, false, false, &disc, &toward);
    gs.tick(Some(Key::Right), false, false, &disc, &toward);
    assert_eq!(gs.ecs.runstate, RunState::PlayerTurn);
    assert_eq!(position(&gs.ecs, player), (3, 2));
    assert_eq!(position(&gs.ecs, orc), (7, 2));
    gs.tick(None, false, false, &disc, &toward);
    assert_eq!(gs.ecs.runstate, RunState::MonsterTurn);
    assert_eq!(position(&gs.ecs, orc), (7, 2));
    gs.tick(None, false, false, &disc, &toward);
    assert_eq!(gs.ecs.runstate, RunState::AwaitingInput);
    assert_eq!(position(&gs.ecs, orc), (6, 2));
    assert_eq!(position(&gs.ecs, player), (3, 2));
}

#[test]
fn a_fight_runs_to_the_death_of_the_monster() {
    let (mut gs, player, orc) = small_game();
    gs.ecs.entities[orc.id].as_mut().unwrap().position = Some(Position { x: 3, y: 2 });
    gs.tick(None, false, false, &disc, &toward);
    // Player power 4 against armor 2: two points a blow, five health.
    let mut rounds = 0;
    while gs.ecs.is_alive(orc) {
        rounds += 1;
        assert!(rounds <= 3);
        assert_eq!(gs.ecs.runstate, RunState::AwaitingInput);
        gs.tick(Some(Key::Right), false, false, &disc, &toward);
        gs.tick(None, false, false, &disc, &toward);
        gs.tick(None, false, false, &disc, &toward);
    }
    assert_eq!(rounds, 3);
    assert_eq!(position(&gs.ecs, player), (2, 2));
    // The orc, power 3 against armor 2, struck back in the first two rounds.
    assert_eq!(gs.ecs.get(player).unwrap().combat_stats.unwrap().curr_hp, 28);
    assert_eq!(
        gs.ecs.gamelog.entries,
        vec![
            " Player hit Orc #0 for 2 hp.".to_string(),
            " Orc #0 hit Player for 1 hp.".to_string(),
            " Player hit Orc #0 for 2 hp.".to_string(),
            " Orc #0 hit Player for 1 hp.".to_string(),
            " Player hit Orc #0 for 2 hp.".to_string(),
        ]
    );
}

#[test]
fn inventory_screens_wait_for_the_host() {
    for (key, state) in [
        (Key::I, RunState::ShowInventory),
        (Key::D, RunState::ShowDropItem),
        (Key::R, RunState::ShowRemoveItem),
    ] {
        let (mut gs, _, orc) = small_game();
        gs.tick(None, false, false, &disc, &toward);
        gs.tick(Some(key), false, false, &disc, &toward);
        assert_eq!(gs.ecs.runstate, state);
        assert!(!gs.tick(Some(Key::Left), false, false, &disc, &toward));
        assert_eq!(gs.ecs.runstate, state);
        assert_eq!(position(&gs.ecs, orc), (7, 2));
    }
}

#[test]
fn the_stairs_lead_to_a_new_level() {
    let (mut gs, player, orc) = small_game();
    let idx = gs.ecs.map.xy_idx(2, 2);
    gs.ecs.map.tiles[idx] = TileType::DownStairs;
    gs.ecs.entities[player.id].as_mut().unwrap().combat_stats.as_mut().unwrap().curr_hp = 11;
    gs.tick(None, false, false, &disc, &toward);
    gs.tick(Some(Key::Period), false, false, &disc, &toward);
    assert_eq!(gs.ecs.runstate, RunState::NextLevel);
    gs.tick(None, false, false, &disc, &toward);
    assert_eq!(gs.ecs.runstate, RunState::PreRun);
    let world = &gs.ecs;
    assert_eq!(world.map.depth, 2);
    assert_eq!(world.map.width, 60);
    assert_eq!(world.map.height, 40);
    assert!(!world.is_alive(orc));
    let (x, y) = world.map.rooms[0].center();
    assert_eq!(position(world, player), (x, y));
    assert_eq!(world.player_pos, Point::new(x, y));
    assert_eq!(world.player_entity, player);
    let c = world.get(player).unwrap();
    assert_eq!(c.combat_stats.unwrap().curr_hp, 11);
    assert!(c.viewshed.as_ref().unwrap().dirty);
    assert!(c.viewshed.as_ref().unwrap().visible_tiles.is_empty());
    assert_eq!(world.entities.len(), 2 + world.map.rooms.len() - 1);
    for (k, room) in world.map.rooms.iter().enumerate().skip(1) {
        let m = world.get(Entity { id: 2 + k - 1 }).unwrap();
        let (mx, my) = room.center();
        assert_eq!(m.position, Some(Position { x: mx, y: my }));
        assert_eq!(m.monster, Some(Monster {}));
    }
    assert_eq!(walk_from(&world.map, x, y), open_tiles(&world.map));
    assert!(world.map.visible_tiles.iter().all(|v| !*v));
    assert!(world.map.revealed_tiles.iter().all(|v| !*v));
}

#[test]
fn going_down_without_a_player_clears_the_level() {
    let mut world = World::new(open_map(10, 5));
    world.create_entity(Components {
        position: Some(Position { x: 1, y: 1 }),
        name: Some(Name { name: "Rock".to_string() }),
        viewshed: Some(Viewshed { visible_tiles: vec![Point::new(9, 4)], range: 3, dirty: false }),
        ..Components::default()
    });
    world.player_entity = Entity { id: 5 };
    let mut gs = State { ecs: world };
    gs.goto_next_level();
    assert!(!gs.ecs.is_alive(Entity { id: 0 }));
    assert_eq!(gs.ecs.entities.len(), 1 + gs.ecs.map.rooms.len() - 1);
    assert_eq!(gs.ecs.map.depth, 2);
}
