use dworld::codepage::{glyph_of, string_to_cp437};
use dworld::{
    selection_box, Console, GameInfo, KeyboardTestSystem, MainMenuState, MenuColors, MenuEvent,
    MenuTrans, TestColors, TestKey,
};

const WHITE: u8 = 1;
const BLACK: u8 = 0;
const GREEN: u8 = 2;
const BLUE: u8 = 3;
const TEAL: u8 = 4;
const MAROON: u8 = 5;

fn console(width: u32, height: u32) -> Console<u8> {
    let mut c = Console::init(width, height, WHITE, BLACK);
    c.is_dirty = false;
    c
}

/// The glyphs of the console as rows of characters, code 32 as a dot.
fn picture(c: &Console<u8>) -> Vec<String> {
    (0..c.height)
        .map(|y| {
            (0..c.width)
                .map(|x| {
                    let glyph = c.tiles[(y * c.width + x) as usize].glyph;
                    if glyph == 32 {
                        '.'
                    } else {
                        char::from_u32(glyph as u32).unwrap_or('?')
                    }
                })
                .collect()
        })
        .collect()
}

fn tile(c: &Console<u8>, x: u32, y: u32) -> (usize, u8, u8) {
    let t = &c.tiles[(y * c.width + x) as usize];
    (t.glyph, t.fg, t.bg)
}

fn colors() -> TestColors<u8> {
    TestColors { sample_fg: GREEN, sample_bg: BLUE, mark_fg: TEAL, mark_bg: MAROON }
}

#[test]
fn a_new_console_is_blank_and_dirty() {
    let c = Console::init(4, 3, WHITE, BLACK);
    assert_eq!(c.width, 4);
    assert_eq!(c.height, 3);
    assert_eq!(c.tiles.len(), 12);
    assert!(c.is_dirty);
    for y in 0..3 {
        for x in 0..4 {
            assert_eq!(tile(&c, x, y), (32, WHITE, BLACK));
        }
    }
    let empty = Console::init(0, 7, WHITE, BLACK);
    assert!(empty.tiles.is_empty());
}

#[test]
fn set_changes_one_tile_and_ignores_the_outside() {
    let mut c = console(4, 3);
    c.set(2, 1, 66, GREEN, BLUE);
    assert!(c.is_dirty);
    for y in 0..3 {
        for x in 0..4 {
            let expected = if (x, y) == (2, 1) { (66, GREEN, BLUE) } else { (32, WHITE, BLACK) };
            assert_eq!(tile(&c, x, y), expected);
        }
    }
    let before = picture(&c);
    c.is_dirty = false;
    c.set(4, 1, 67, GREEN, BLUE);
    c.set(2, 3, 67, GREEN, BLUE);
    c.set(u32::MAX, u32::MAX, 67, GREEN, BLUE);
    assert_eq!(picture(&c), before);
    assert!(c.is_dirty);
}

#[test]
fn glyph_codes_come_from_code_page_437() {
    assert_eq!(glyph_of('a'), 97);
    assert_eq!(glyph_of('☺'), 1);
    assert_eq!(glyph_of('┌'), 218);
    assert_eq!(glyph_of('■'), 254);
    assert_eq!(glyph_of('€'), 0);
    assert_eq!(string_to_cp437("Hé ░"), vec![72, 130, 32, 176]);
    assert_eq!(string_to_cp437(""), Vec::<u16>::new());
}

#[test]
fn print_looks_the_glyph_up() {
    let mut c = console(4, 3);
    c.print(1, 2, '♥');
    assert_eq!(tile(&c, 1, 2), (3, WHITE, BLACK));
    c.print_cl(0, 0, '█', GREEN, BLUE);
    assert_eq!(tile(&c, 0, 0), (219, GREEN, BLUE));
    assert!(c.is_dirty);
}

#[test]
fn print_str_writes_along_the_first_row() {
    let mut c = console(8, 3);
    c.print_str(2, 0, "Hello");
    assert_eq!(picture(&c), vec!["..Hello.", "........", "........"]);
    assert_eq!(tile(&c, 2, 0), (72, WHITE, BLACK));
    assert!(c.is_dirty);
    let mut c = console(8, 3);
    c.print_str_cl(5, 0, "Hello", GREEN, BLUE);
    assert_eq!(picture(&c), vec![".....Hel", "........", "........"]);
    assert_eq!(tile(&c, 7, 0), (108, GREEN, BLUE));
}

#[test]
fn print_str_below_the_first_row_sets_nothing() {
    let mut c = console(8, 3);
    c.print_str(2, 1, "Hello");
    assert_eq!(picture(&c), vec!["........"; 3]);
    assert!(c.is_dirty);
    let mut c = console(8, 3);
    c.print_str(2, 3, "Hello");
    assert!(!c.is_dirty);
    c.print_str(0, 0, "");
    assert!(!c.is_dirty);
    c.print_str(u32::MAX, u32::MAX, "Hello");
    assert!(!c.is_dirty);
    assert_eq!(picture(&c), vec!["........"; 3]);
}

#[test]
fn cls_blanks_every_tile() {
    let mut c = console(4, 2);
    c.set(1, 1, 66, GREEN, BLUE);
    c.is_dirty = false;
    c.cls();
    assert!(c.is_dirty);
    for y in 0..2 {
        for x in 0..4 {
            assert_eq!(tile(&c, x, y), (32, WHITE, BLACK));
        }
    }
}

#[test]
fn fillbox_fills_what_lies_on_the_console() {
    let mut c = console(6, 4);
    c.draw_fillbox(1, 1, 3, 2, 42, GREEN, BLUE);
    assert_eq!(picture(&c), vec!["......", ".***..", ".***..", "......"]);
    assert_eq!(tile(&c, 3, 2), (42, GREEN, BLUE));
    assert!(c.is_dirty);
    let mut c = console(6, 4);
    c.draw_fillbox(4, 3, 5, 5, 42, GREEN, BLUE);
    assert_eq!(picture(&c), vec!["......", "......", "......", "....**"]);
    let mut c = console(6, 4);
    c.draw_fillbox(2, 2, u32::MAX, u32::MAX, 42, GREEN, BLUE);
    assert_eq!(picture(&c), vec!["......", "......", "..****", "..****"]);
}

#[test]
fn an_empty_fillbox_leaves_the_console_clean() {
    let mut c = console(6, 4);
    c.draw_fillbox(1, 1, 0, 2, 42, GREEN, BLUE);
    c.draw_fillbox(1, 1, 2, 0, 42, GREEN, BLUE);
    assert!(!c.is_dirty);
    assert_eq!(picture(&c), vec!["......"; 4]);
    c.draw_fillbox(9, 9, 1, 1, 42, GREEN, BLUE);
    assert!(c.is_dirty);
    assert_eq!(picture(&c), vec!["......"; 4]);
}

#[test]
fn box_has_corners_dashes_and_bars() {
    let mut c = console(7, 5);
    c.draw_box(1, 1, 4, 3, GREEN, BLUE);
    let glyph = |x, y| tile(&c, x, y).0;
    assert_eq!(glyph(1, 1), 218);
    assert_eq!(glyph(5, 1), 191);
    assert_eq!(glyph(1, 4), 192);
    assert_eq!(glyph(5, 4), 217);
    for x in 2..5 {
        assert_eq!(glyph(x, 1), 45);
        assert_eq!(glyph(x, 4), 45);
    }
    for y in 2..4 {
        assert_eq!(glyph(1, y), 124);
        assert_eq!(glyph(5, y), 124);
        for x in 2..5 {
            assert_eq!(glyph(x, y), 32);
        }
    }
    for x in 0..7 {
        assert_eq!(glyph(x, 0), 32);
    }
    assert_eq!(tile(&c, 5, 4), (217, GREEN, BLUE));
    assert!(c.is_dirty);
}

#[test]
fn box_is_cut_at_the_edge_and_collapses_when_flat() {
    let mut c = console(4, 3);
    c.draw_box(2, 1, 5, 5, GREEN, BLUE);
    let glyph = |x, y| tile(&c, x, y).0;
    assert_eq!(glyph(2, 1), 218);
    assert_eq!(glyph(3, 1), 45);
    assert_eq!(glyph(2, 2), 124);
    assert_eq!(glyph(3, 2), 32);
    let mut c = console(4, 3);
    c.draw_box(1, 1, 0, 0, GREEN, BLUE);
    assert_eq!(tile(&c, 1, 1).0, 217);
    let mut c = console(4, 3);
    c.draw_box(1, 1, 2, 0, GREEN, BLUE);
    assert_eq!(tile(&c, 1, 1).0, 192);
    assert_eq!(tile(&c, 2, 1).0, 45);
    assert_eq!(tile(&c, 3, 1).0, 217);
    let mut c = console(4, 3);
    c.draw_box(u32::MAX, u32::MAX, u32::MAX, u32::MAX, GREEN, BLUE);
    assert!(c.is_dirty);
    assert_eq!(picture(&c), vec!["...."; 3]);
}

#[test]
fn selection_box_prints_the_entries_shifted_left() {
    let mut c = console(20, 1);
    selection_box(&mut c, 8, 0, vec!["abcdef".to_string()], 0, WHITE, GREEN, BLUE);
    assert_eq!(picture(&c), vec![".....abcdef........."]);
    assert_eq!(tile(&c, 5, 0), (97, GREEN, BLUE));
    let mut c = console(20, 1);
    selection_box(&mut c, 8, 0, vec!["abcdef".to_string()], 1, WHITE, GREEN, BLUE);
    assert_eq!(tile(&c, 5, 0), (97, WHITE, BLUE));
    // Below the first row the entries lie beyond the right edge.
    let mut c = console(20, 3);
    selection_box(
        &mut c,
        8,
        0,
        vec!["ab".to_string(), "cdefgh".to_string(), "ij".to_string()],
        1,
        WHITE,
        GREEN,
        BLUE,
    );
    assert_eq!(picture(&c), vec![".....ab.............", "....................", "...................."]);
    let mut c = console(20, 3);
    selection_box(&mut c, 8, 0, Vec::new(), 0, WHITE, GREEN, BLUE);
    assert!(!c.is_dirty);
}

#[test]
fn selection_box_counts_bytes_for_the_shift() {
    let mut c = console(20, 1);
    selection_box(&mut c, 8, 0, vec!["éééé".to_string()], 0, WHITE, GREEN, BLUE);
    assert_eq!(tile(&c, 4, 0).0, 130);
    assert_eq!(tile(&c, 7, 0).0, 130);
    assert_eq!(tile(&c, 3, 0).0, 32);
    assert_eq!(tile(&c, 8, 0).0, 32);
}

#[test]
fn the_keyboard_test_draws_its_samples() {
    let mut c = console(60, 40);
    let mut system = KeyboardTestSystem::default();
    system.run(&mut c, TestKey::A, colors());
    assert!(c.is_dirty);
    assert_eq!(tile(&c, 1, 5), (66, GREEN, BLUE));
    assert_eq!(tile(&c, 1, 1), (97, WHITE, BLACK));
    assert_eq!(tile(&c, 2, 2), (98, WHITE, BLACK));
    assert_eq!(tile(&c, 3, 3), (64, WHITE, BLACK));
    assert_eq!(tile(&c, 4, 4), (81, GREEN, BLUE));
    assert_eq!(tile(&c, 5, 5), (93, GREEN, BLUE));
    assert_eq!(tile(&c, 6, 6), (43, GREEN, BLUE));
    assert_eq!(tile(&c, 53, 35), (37, GREEN, BLUE));
    let marked = c.tiles.iter().filter(|t| t.glyph != 32).count();
    assert_eq!(marked, 8);
}

#[test]
fn the_keyboard_test_stamps_marks_column_by_column() {
    let mut c = console(60, 40);
    let mut system = KeyboardTestSystem::default();
    for column in 0..3 {
        system.run(&mut c, TestKey::Z, colors());
        assert_eq!(tile(&c, column, 15), (97, WHITE, BLACK));
        assert_eq!(tile(&c, column, 30), (38, TEAL, MAROON));
        assert_eq!(tile(&c, column + 1, 15), (32, WHITE, BLACK));
    }
    system.run(&mut c, TestKey::Other, colors());
    system.run(&mut c, TestKey::Q, colors());
    assert!(c.tiles.iter().all(|t| (t.glyph, t.fg, t.bg) == (32, WHITE, BLACK)));
    system.run(&mut c, TestKey::Z, colors());
    assert_eq!(tile(&c, 0, 15), (97, WHITE, BLACK));
    assert_eq!(tile(&c, 1, 15), (32, WHITE, BLACK));
}

#[test]
fn the_keyboard_test_draws_its_boxes() {
    let mut c = console(60, 40);
    let mut system = KeyboardTestSystem::default();
    system.run(&mut c, TestKey::D, colors());
    for y in 5..10 {
        for x in 5..10 {
            assert_eq!(tile(&c, x, y), (42, TEAL, MAROON));
        }
    }
    assert_eq!(tile(&c, 10, 5).0, 32);
    assert_eq!(tile(&c, 30, 30), (218, TEAL, MAROON));
    assert_eq!(tile(&c, 35, 35), (217, TEAL, MAROON));
    assert_eq!(tile(&c, 32, 30).0, 45);
    assert_eq!(tile(&c, 30, 32).0, 124);
    assert_eq!(tile(&c, 32, 32).0, 32);
}

#[test]
fn other_keys_leave_the_console_alone() {
    let mut c = console(10, 10);
    let mut system = KeyboardTestSystem::default();
    system.run(&mut c, TestKey::Other, colors());
    assert!(!c.is_dirty);
    assert_eq!(picture(&c), vec![".........."; 10]);
}

#[test]
fn the_menu_selection_stops_at_both_ends() {
    let mut menu = MainMenuState::default();
    assert_eq!(menu.curr_menu_sel, 0);
    assert_eq!(menu.handle_event(MenuEvent::Up), MenuTrans::Stay);
    assert_eq!(menu.curr_menu_sel, 0);
    for expected in [1, 2, 3, 3, 3] {
        assert_eq!(menu.handle_event(MenuEvent::Down), MenuTrans::Stay);
        assert_eq!(menu.curr_menu_sel, expected);
    }
    assert_eq!(menu.handle_event(MenuEvent::Other), MenuTrans::Stay);
    assert_eq!(menu.handle_event(MenuEvent::Up), MenuTrans::Stay);
    assert_eq!(menu.curr_menu_sel, 2);
    assert_eq!(menu.handle_event(MenuEvent::Escape), MenuTrans::Quit);
    assert_eq!(menu.handle_event(MenuEvent::CloseRequested), MenuTrans::Quit);
    assert_eq!(menu.curr_menu_sel, 2);
}

#[test]
fn the_menu_is_drawn_on_a_cleared_console() {
    let menu_colors = MenuColors { motto: TEAL, entry: WHITE, selected: GREEN, background: MAROON };
    // A tile height below four puts the title into the first row.
    let info = GameInfo { tile_width: 3, tile_height: 3, tilemap_height: 0, tilemap_width: 40 };
    let mut c = console(40, 12);
    c.set(0, 11, 66, GREEN, BLUE);
    c.is_dirty = false;
    let menu = MainMenuState { curr_menu_sel: 0 };
    assert_eq!(menu.update(&mut c, &info, menu_colors), MenuTrans::Stay);
    assert!(c.is_dirty);
    let rows = picture(&c);
    // "Dworld" from column 17 on, then "Load Game" from column 16 on over it.
    assert_eq!(rows[0], "................Load.Game...............");
    assert_eq!(tile(&c, 16, 0), (76, GREEN, MAROON));
    assert_eq!(tile(&c, 19, 0), (100, GREEN, MAROON));
    assert_eq!(tile(&c, 20, 0).0, 32);
    for row in rows.iter().skip(1) {
        assert_eq!(row, "........................................");
    }
    let menu = MainMenuState { curr_menu_sel: 2 };
    menu.update(&mut c, &info, menu_colors);
    assert_eq!(tile(&c, 16, 0), (76, WHITE, MAROON));
}

#[test]
fn a_console_with_a_short_grid_is_out_of_shape() {
    let mut c = console(4, 3);
    assert!(c.is_well_formed());
    c.tiles.pop();
    assert!(!c.is_well_formed());
    let mut c = console(4, 3);
    c.width = 5;
    assert!(!c.is_well_formed());
    assert!(console(0, 9).is_well_formed());
}
