use dworld::map::{MAP_HEIGHT, MAP_WIDTH, MAX_ROOMS, MAX_SIZE, MIN_SIZE};
use dworld::{GameMap, Rect, TileType};

fn open_tiles(map: &GameMap) -> usize {
    map.tiles.iter().filter(|t| **t != TileType::Wall).count()
}

/// The number of open tiles that can be walked to from `(x, y)` over open
/// tiles that share an edge.
fn walk_from(map: &GameMap, x: i32, y: i32) -> usize {
    let mut seen = vec![false; map.tiles.len()];
    let mut stack = vec![(x, y)];
    let mut count = 0;
    while let Some((x, y)) = stack.pop() {
        if !map.contains(x, y) {
            continue;
        }
        let idx = map.xy_idx(x, y);
        if seen[idx] || map.tiles[idx] == TileType::Wall {
            continue;
        }
        seen[idx] = true;
        count += 1;
        stack.push((x + 1, y));
        stack.push((x - 1, y));
        stack.push((x, y + 1));
        stack.push((x, y - 1));
    }
    count
}

#[test]
fn new_map_is_solid_wall() {
    let map = GameMap::new(7, 5);
    assert_eq!(map.width, 7);
    assert_eq!(map.height, 5);
    assert_eq!(map.depth, 1);
    assert!(map.dirty);
    assert_eq!(map.tiles, vec![TileType::Wall; 35]);
    assert_eq!(map.revealed_tiles, vec![false; 35]);
    assert_eq!(map.visible_tiles, vec![false; 35]);
    assert_eq!(map.is_walkable, vec![false; 35]);
    assert_eq!(map.is_transparent, vec![false; 35]);
    assert_eq!(map.tile_content.len(), 35);
    assert!(map.tile_content.iter().all(|c| c.is_empty()));
    assert!(map.rooms.is_empty());
}

#[test]
fn xy_idx_is_row_major() {
    let map = GameMap::new(60, 40);
    assert_eq!(map.xy_idx(0, 0), 0);
    assert_eq!(map.xy_idx(59, 0), 59);
    assert_eq!(map.xy_idx(0, 1), 60);
    assert_eq!(map.xy_idx(7, 3), 187);
    assert_eq!(map.xy_idx(59, 39), 2399);
}

#[test]
fn contains_knows_the_edges() {
    let map = GameMap::new(10, 4);
    assert!(map.contains(0, 0));
    assert!(map.contains(9, 3));
    assert!(!map.contains(10, 3));
    assert!(!map.contains(9, 4));
    assert!(!map.contains(-1, 0));
    assert!(!map.contains(0, -1));
}

#[test]
fn recompute_map_follows_the_tiles() {
    let mut map = GameMap::new(4, 2);
    map.tiles[1] = TileType::Floor;
    map.tiles[6] = TileType::DownStairs;
    map.is_walkable[0] = true;
    map.is_transparent[3] = true;
    map.revealed_tiles[2] = true;
    map.recompute_map();
    let expected = vec![false, true, false, false, false, false, true, false];
    assert_eq!(map.is_walkable, expected);
    assert_eq!(map.is_transparent, expected);
    assert_eq!(map.revealed_tiles[2], true);
    assert!(map.dirty);
}

#[test]
fn first_room_is_dug_without_a_corridor() {
    let mut map = GameMap::new(20, 12);
    let room = Rect::new(2, 3, 6, 5);
    assert!(map.add_room(room, true));
    assert_eq!(map.rooms, vec![room]);
    for y in 0..12 {
        for x in 0..20 {
            let inside = 2 < x && x <= 8 && 3 < y && y <= 8;
            let expected = if inside { TileType::Floor } else { TileType::Wall };
            assert_eq!(map.tiles[map.xy_idx(x, y)], expected, "tile {} {}", x, y);
        }
    }
}

#[test]
fn second_room_is_joined_along_the_row_first() {
    let mut map = GameMap::new(30, 20);
    assert!(map.add_room(Rect::new(1, 1, 4, 4), true));
    assert!(map.add_room(Rect::new(20, 12, 4, 4), true));
    // From the middle (3, 3) of the first room along row 3 to column 22,
    // then down column 22 to the middle (22, 14) of the second.
    for x in 3..=22 {
        assert_eq!(map.tiles[map.xy_idx(x, 3)], TileType::Floor, "row tile {}", x);
    }
    for y in 3..=14 {
        assert_eq!(map.tiles[map.xy_idx(22, y)], TileType::Floor, "column tile {}", y);
    }
    assert_eq!(map.tiles[map.xy_idx(3, 10)], TileType::Wall);
    assert_eq!(open_tiles(&map), 16 + 16 + (22 - 5) + (12 - 3));
}

#[test]
fn second_room_is_joined_along_the_column_first() {
    let mut map = GameMap::new(30, 20);
    assert!(map.add_room(Rect::new(1, 1, 4, 4), false));
    assert!(map.add_room(Rect::new(20, 12, 4, 4), false));
    // From the middle (3, 3) of the first room down column 3 to row 14,
    // then along row 14 to the middle (22, 14) of the second.
    for y in 3..=14 {
        assert_eq!(map.tiles[map.xy_idx(3, y)], TileType::Floor, "column tile {}", y);
    }
    for x in 3..=22 {
        assert_eq!(map.tiles[map.xy_idx(x, 14)], TileType::Floor, "row tile {}", x);
    }
    assert_eq!(map.tiles[map.xy_idx(22, 5)], TileType::Wall);
    assert_eq!(open_tiles(&map), 16 + 16 + (14 - 5) + (20 - 3));
}

#[test]
fn a_corridor_along_the_first_row_digs_the_corner() {
    let mut map = GameMap::new(10, 6);
    assert!(map.add_room(Rect { x1: 0, x2: 0, y1: 0, y2: 0 }, true));
    assert_eq!(open_tiles(&map), 0);
    assert!(map.add_room(Rect { x1: 3, x2: 5, y1: 0, y2: 0 }, true));
    for x in 0..10 {
        let expected = if x <= 4 { TileType::Floor } else { TileType::Wall };
        assert_eq!(map.tiles[map.xy_idx(x, 0)], expected, "tile {} 0", x);
    }
    assert_eq!(open_tiles(&map), 5);
}

#[test]
fn a_corridor_along_the_first_column_digs_the_corner() {
    let mut map = GameMap::new(6, 10);
    assert!(map.add_room(Rect { x1: 0, x2: 0, y1: 5, y2: 7 }, false));
    assert!(map.add_room(Rect { x1: 0, x2: 0, y1: 0, y2: 0 }, false));
    for y in 0..10 {
        let expected = if y <= 6 { TileType::Floor } else { TileType::Wall };
        assert_eq!(map.tiles[map.xy_idx(0, y)], expected, "tile 0 {}", y);
    }
    assert_eq!(open_tiles(&map), 7);
}

#[test]
fn overlapping_room_is_dropped() {
    let mut map = GameMap::new(30, 20);
    assert!(map.add_room(Rect::new(1, 1, 6, 6), true));
    let tiles = map.tiles.clone();
    assert!(!map.add_room(Rect::new(7, 7, 6, 6), true));
    assert_eq!(map.rooms.len(), 1);
    assert_eq!(map.tiles, tiles);
    assert!(map.add_room(Rect::new(8, 8, 6, 6), true));
    assert_eq!(map.rooms.len(), 2);
}

#[test]
fn generated_map_has_its_size_and_rooms() {
    let map = GameMap::new_map_rooms_and_corridors();
    assert_eq!(map.width, MAP_WIDTH);
    assert_eq!(map.height, MAP_HEIGHT);
    assert_eq!(map.tiles.len(), 2400);
    assert!(!map.rooms.is_empty());
    assert!(map.rooms.len() <= MAX_ROOMS as usize);
    for room in map.rooms.iter() {
        assert!(MIN_SIZE <= room.x2 - room.x1 && room.x2 - room.x1 < MAX_SIZE);
        assert!(MIN_SIZE <= room.y2 - room.y1 && room.y2 - room.y1 < MAX_SIZE);
        assert!(0 <= room.x1 && room.x2 <= MAP_WIDTH - 3);
        assert!(0 <= room.y1 && room.y2 <= MAP_HEIGHT - 3);
    }
}

#[test]
fn generated_rooms_do_not_overlap_and_are_dug() {
    for _ in 0..20 {
        let map = GameMap::new_map_rooms_and_corridors();
        for (j, a) in map.rooms.iter().enumerate() {
            for b in map.rooms.iter().skip(j + 1) {
                assert!(!a.intersect(b));
            }
            for y in a.y1 + 1..=a.y2 {
                for x in a.x1 + 1..=a.x2 {
                    assert_eq!(map.tiles[map.xy_idx(x, y)], TileType::Floor);
                }
            }
        }
    }
}

#[test]
fn generated_map_is_connected_from_the_start() {
    for _ in 0..100 {
        let map = GameMap::new_map_rooms_and_corridors();
        let (x, y) = map.rooms[0].center();
        assert_ne!(map.tiles[map.xy_idx(x, y)], TileType::Wall);
        assert_eq!(walk_from(&map, x, y), open_tiles(&map));
    }
}

#[test]
fn generated_map_has_flags_that_follow_its_tiles() {
    let map = GameMap::new_map_rooms_and_corridors();
    for idx in 0..map.tiles.len() {
        let open = map.tiles[idx] != TileType::Wall;
        assert_eq!(map.is_walkable[idx], open);
        assert_eq!(map.is_transparent[idx], open);
        assert!(!map.revealed_tiles[idx]);
        assert!(!map.visible_tiles[idx]);
        assert!(map.tile_content[idx].is_empty());
    }
}

#[test]
fn generated_rooms_vary_in_size_and_place() {
    let mut widths = Vec::new();
    let mut corners = Vec::new();
    for _ in 0..20 {
        let map = GameMap::new_map_rooms_and_corridors();
        for room in map.rooms.iter() {
            if !widths.contains(&(room.x2 - room.x1)) {
                widths.push(room.x2 - room.x1);
            }
            if !corners.contains(&(room.x1, room.y1)) {
                corners.push((room.x1, room.y1));
            }
        }
    }
    assert!(widths.len() > 1);
    assert!(corners.len() > 1);
}

#[test]
fn duplicate_copies_every_grid() {
    let mut map = GameMap::new(6, 4);
    map.add_room(Rect::new(0, 0, 3, 2), true);
    map.recompute_map();
    map.revealed_tiles[7] = true;
    map.visible_tiles[8] = true;
    map.tile_content[9].push(dworld::Entity { id: 4 });
    map.depth = 3;
    let copy = map.duplicate();
    assert_eq!(copy.tiles, map.tiles);
    assert_eq!(copy.rooms, map.rooms);
    assert_eq!(copy.width, 6);
    assert_eq!(copy.height, 4);
    assert_eq!(copy.depth, 3);
    assert_eq!(copy.dirty, map.dirty);
    assert_eq!(copy.revealed_tiles, map.revealed_tiles);
    assert_eq!(copy.visible_tiles, map.visible_tiles);
    assert_eq!(copy.is_walkable, map.is_walkable);
    assert_eq!(copy.is_transparent, map.is_transparent);
    assert_eq!(copy.tile_content, map.tile_content);
}
