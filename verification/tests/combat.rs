use dworld::damage_system::delete_the_dead;
use dworld::melee_combat_system::blow_damage;
use dworld::{
    BlocksTile, CombatStats, Components, DamageSystem, Entity, GameMap, MapIndexingSystem,
    MeleeCombatSystem, Monster, Name, Player, Position, SufferDamage, TileType, Viewshed,
    WantsToMelee, World,
};

fn open_map(width: i32, height: i32) -> GameMap {
    let mut map = GameMap::new(width, height);
    for tile in map.tiles.iter_mut() {
        *tile = TileType::Floor;
    }
    map.recompute_map();
    map
}

fn stats(curr_hp: i32, power: i32, armor: i32) -> CombatStats {
    CombatStats { max_hp: 30, curr_hp, armor, magic_res: 4, power, max_mana: 50, curr_mana: 50 }
}

fn fighter(name: &str, x: i32, y: i32, stats: CombatStats) -> Components {
    Components {
        position: Some(Position { x, y }),
        name: Some(Name { name: name.to_string() }),
        combat_stats: Some(stats),
        viewshed: Some(Viewshed { visible_tiles: Vec::new(), range: 8, dirty: true }),
        ..Components::default()
    }
}

/// The player at (5, 5) with power 4 and armor 2, and a goblin at (6, 5)
/// with the given health and armor 2.
fn duel(goblin_hp: i32) -> (World, Entity, Entity) {
    let mut world = World::new(open_map(12, 10));
    let mut hero = fighter("Player", 5, 5, stats(30, 4, 2));
    hero.player = Some(Player {});
    let player = world.create_entity(hero);
    world.player_entity = player;
    world.player_pos = dworld::Point::new(5, 5);
    let mut goblin = fighter("Goblin #0", 6, 5, stats(goblin_hp, 3, 2));
    goblin.monster = Some(Monster {});
    goblin.blocks_tile = Some(BlocksTile {});
    let monster = world.create_entity(goblin);
    MapIndexingSystem {}.run(&mut world);
    (world, player, monster)
}

fn hp(world: &World, entity: Entity) -> i32 {
    world.get(entity).unwrap().combat_stats.unwrap().curr_hp
}

#[test]
fn blow_damage_is_power_less_armor_and_never_negative() {
    assert_eq!(blow_damage(4, 2), 2);
    assert_eq!(blow_damage(3, 2), 1);
    assert_eq!(blow_damage(2, 2), 0);
    assert_eq!(blow_damage(1, 5), 0);
    assert_eq!(blow_damage(-7, -9), 2);
    assert_eq!(blow_damage(i32::MIN, i32::MAX), 0);
    assert_eq!(blow_damage(i32::MAX, i32::MIN), 4294967295);
    for power in -5..=5 {
        for armor in -5..=5 {
            let damage = blow_damage(power, armor);
            assert_eq!(damage, std::cmp::max(0, power as i64 - armor as i64));
            assert!(damage >= 0);
            assert_eq!(damage == 0, power <= armor);
        }
    }
}

#[test]
fn moving_into_a_monster_is_an_attack_not_a_move() {
    let (mut world, player, monster) = duel(5);
    dworld::try_move_player(1, 0, &mut world);
    let hero = world.get(player).unwrap();
    assert_eq!(hero.wants_to_melee, Some(WantsToMelee { target: monster }));
    assert_eq!(hero.position, Some(Position { x: 5, y: 5 }));
    assert_eq!(world.player_pos, dworld::Point::new(5, 5));
}

#[test]
fn simultaneous_adjacency_attack_wounds_the_monster() {
    let (mut world, player, monster) = duel(5);
    dworld::try_move_player(1, 0, &mut world);
    MeleeCombatSystem {}.run(&mut world);
    assert_eq!(world.get(monster).unwrap().suffer_damage.as_ref().unwrap().amount, vec![2]);
    assert_eq!(world.get(player).unwrap().wants_to_melee, None);
    assert_eq!(world.gamelog.entries, vec![" Player hit Goblin #0 for 2 hp.".to_string()]);
    assert_eq!(hp(&world, monster), 5);
    DamageSystem {}.run(&mut world);
    assert_eq!(hp(&world, monster), 3);
    assert!(world.get(monster).unwrap().suffer_damage.is_none());
    delete_the_dead(&mut world);
    assert!(world.is_alive(monster));
    assert_eq!(hp(&world, monster), 3);
    assert_eq!(hp(&world, player), 30);
}

#[test]
fn lethal_hit_removes_the_monster() {
    let (mut world, player, monster) = duel(2);
    dworld::try_move_player(1, 0, &mut world);
    MeleeCombatSystem {}.run(&mut world);
    DamageSystem {}.run(&mut world);
    assert_eq!(hp(&world, monster), 0);
    delete_the_dead(&mut world);
    assert!(!world.is_alive(monster));
    assert!(world.get(monster).is_none());
    assert!(world.is_alive(player));
    let tile = world.map.xy_idx(6, 5);
    MapIndexingSystem {}.run(&mut world);
    assert!(!world.map.tile_content[tile].contains(&monster));
    assert!(world.map.tile_content[tile].is_empty());
    assert!(world.map.is_walkable[tile]);
}

#[test]
fn a_weak_blow_is_logged_as_a_miss_and_does_no_damage() {
    let (mut world, player, monster) = duel(5);
    if let Some(c) = world.entities[monster.id].as_mut() {
        c.combat_stats = Some(stats(5, 3, 4));
        c.wants_to_melee = Some(WantsToMelee { target: player });
    }
    if let Some(c) = world.entities[player.id].as_mut() {
        c.wants_to_melee = Some(WantsToMelee { target: monster });
    }
    MeleeCombatSystem {}.run(&mut world);
    assert_eq!(
        world.gamelog.entries,
        vec![
            " Player is unable to hurt Goblin #0".to_string(),
            " Goblin #0 hit Player for 1 hp.".to_string(),
        ]
    );
    assert!(world.get(monster).unwrap().suffer_damage.is_none());
    assert_eq!(world.get(player).unwrap().suffer_damage.as_ref().unwrap().amount, vec![1]);
    assert!(world.get(monster).unwrap().wants_to_melee.is_none());
}

#[test]
fn blows_of_one_turn_are_read_before_any_is_taken() {
    let mut world = World::new(open_map(8, 8));
    let a = world.create_entity(fighter("A", 1, 1, stats(1, 9, 0)));
    let b = world.create_entity(fighter("B", 2, 1, stats(1, 9, 0)));
    let c = world.create_entity(fighter("C", 3, 1, stats(10, 5, 1)));
    world.entities[a.id].as_mut().unwrap().wants_to_melee = Some(WantsToMelee { target: b });
    world.entities[b.id].as_mut().unwrap().wants_to_melee = Some(WantsToMelee { target: a });
    world.entities[c.id].as_mut().unwrap().wants_to_melee = Some(WantsToMelee { target: a });
    MeleeCombatSystem {}.run(&mut world);
    assert_eq!(world.get(a).unwrap().suffer_damage.as_ref().unwrap().amount, vec![9, 5]);
    assert_eq!(world.get(b).unwrap().suffer_damage.as_ref().unwrap().amount, vec![9]);
    assert!(world.get(c).unwrap().suffer_damage.is_none());
    assert_eq!(
        world.gamelog.entries,
        vec![
            " A hit B for 9 hp.".to_string(),
            " B hit A for 9 hp.".to_string(),
            " C hit A for 5 hp.".to_string(),
        ]
    );
    DamageSystem {}.run(&mut world);
    assert_eq!(hp(&world, a), -13);
    assert_eq!(hp(&world, b), -8);
    assert_eq!(hp(&world, c), 10);
}

#[test]
fn intents_against_the_dead_or_the_gone_are_dropped() {
    let mut world = World::new(open_map(8, 8));
    let a = world.create_entity(fighter("A", 1, 1, stats(5, 9, 0)));
    let dead = world.create_entity(fighter("Dead", 2, 1, stats(0, 9, 0)));
    let gone = world.create_entity(fighter("Gone", 3, 1, stats(5, 9, 0)));
    let b = world.create_entity(fighter("B", 4, 1, stats(5, 9, 0)));
    let nameless = world.create_entity(Components {
        combat_stats: Some(stats(5, 9, 0)),
        ..Components::default()
    });
    world.delete_entity(gone);
    world.entities[a.id].as_mut().unwrap().wants_to_melee = Some(WantsToMelee { target: dead });
    world.entities[b.id].as_mut().unwrap().wants_to_melee = Some(WantsToMelee { target: gone });
    world.entities[dead.id].as_mut().unwrap().wants_to_melee = Some(WantsToMelee { target: a });
    world.entities[nameless.id].as_mut().unwrap().wants_to_melee =
        Some(WantsToMelee { target: Entity { id: 99 } });
    MeleeCombatSystem {}.run(&mut world);
    assert!(world.gamelog.entries.is_empty());
    for e in [a, dead, b, nameless] {
        assert!(world.get(e).unwrap().suffer_damage.is_none());
        assert!(world.get(e).unwrap().wants_to_melee.is_none());
    }
}

#[test]
fn new_damage_appends_to_the_record() {
    let mut world = World::new(open_map(4, 4));
    let a = world.create_entity(fighter("A", 1, 1, stats(5, 1, 0)));
    SufferDamage::new_damage(&mut world, a, 3);
    assert_eq!(world.get(a).unwrap().suffer_damage.as_ref().unwrap().amount, vec![3]);
    SufferDamage::new_damage(&mut world, a, 7);
    assert_eq!(world.get(a).unwrap().suffer_damage.as_ref().unwrap().amount, vec![3, 7]);
    assert_eq!(hp(&world, a), 5);
}

#[test]
fn damage_is_summed_and_the_record_cleared() {
    let mut world = World::new(open_map(4, 4));
    let a = world.create_entity(fighter("A", 1, 1, stats(20, 1, 0)));
    let b = world.create_entity(fighter("B", 2, 1, stats(20, 1, 0)));
    let no_stats = world.create_entity(Components {
        suffer_damage: Some(SufferDamage { amount: vec![4] }),
        ..Components::default()
    });
    SufferDamage::new_damage(&mut world, a, 3);
    SufferDamage::new_damage(&mut world, a, 7);
    SufferDamage::new_damage(&mut world, a, 1);
    DamageSystem {}.run(&mut world);
    assert_eq!(hp(&world, a), 9);
    assert_eq!(hp(&world, b), 20);
    assert!(world.get(a).unwrap().suffer_damage.is_none());
    assert!(world.get(no_stats).unwrap().suffer_damage.is_none());
    assert!(world.get(no_stats).unwrap().combat_stats.is_none());
}

#[test]
fn health_stops_at_the_ends_of_its_range() {
    let mut world = World::new(open_map(4, 4));
    let a = world.create_entity(fighter("A", 1, 1, stats(i32::MIN + 5, 1, 0)));
    let b = world.create_entity(fighter("B", 2, 1, stats(i32::MAX - 5, 1, 0)));
    SufferDamage::new_damage(&mut world, a, i64::MAX);
    SufferDamage::new_damage(&mut world, a, i64::MAX);
    SufferDamage::new_damage(&mut world, b, -10);
    DamageSystem {}.run(&mut world);
    assert_eq!(hp(&world, a), i32::MIN);
    assert_eq!(hp(&world, b), i32::MAX);
}

#[test]
fn the_sweep_removes_the_fallen_but_not_the_player() {
    let mut world = World::new(open_map(6, 6));
    let mut hero = fighter("Player", 1, 1, stats(0, 4, 2));
    hero.player = Some(Player {});
    let player = world.create_entity(hero);
    let fallen = world.create_entity(fighter("Fallen", 2, 1, stats(0, 1, 0)));
    let below = world.create_entity(fighter("Below", 3, 1, stats(-4, 1, 0)));
    let hale = world.create_entity(fighter("Hale", 4, 1, stats(1, 1, 0)));
    let thing = world.create_entity(Components {
        position: Some(Position { x: 2, y: 2 }),
        ..Components::default()
    });
    delete_the_dead(&mut world);
    assert!(world.is_alive(player));
    assert_eq!(hp(&world, player), 0);
    assert!(!world.is_alive(fallen));
    assert!(!world.is_alive(below));
    assert!(world.is_alive(hale));
    assert!(world.is_alive(thing));
    assert_eq!(world.entities.len(), 5);
}
