//! The main menu: a title and four entries, one of them selected.

use crate::codepage::cp437_codes;
use crate::console::{glyphs_set, Console, ConsoleTile};
use crate::console_util::{
    entries_mark_dirty, entries_printed, longest_entry, selection_box,
};
use crate::game_resources::GameInfo;
use vstd::prelude::*;
use vstd::string::StringExecFns;

verus! {

/// What can happen to the menu.
#[derive(Clone, Copy, Debug, PartialEq, Eq, Structural)]
pub enum MenuEvent {
    /// The window is to be closed.
    CloseRequested,
    /// The escape key went down.
    Escape,
    /// The down arrow went down.
    Down,
    /// The up arrow went down.
    Up,
    /// Anything else.
    Other,
}

/// What the menu asks for in return.
#[derive(Clone, Copy, Debug, PartialEq, Eq, Structural)]
pub enum MenuTrans {
    /// Go on.
    Stay,
    /// Leave the game.
    Quit,
}

/// The colours of the menu.
#[derive(Clone, Copy, Debug)]
pub struct MenuColors<C> {
    /// Foreground of the motto under the title.
    pub motto: C,
    /// Foreground of the entries that are not selected.
    pub entry: C,
    /// Foreground of the selected entry.
    pub selected: C,
    /// Background of the motto and of the entries.
    pub background: C,
}

/// The number of the last entry.
pub const LAST_ENTRY: u32 = 3;

/// The main menu and its selected entry.
pub struct MainMenuState {
    pub curr_menu_sel: u32,
}

/// The entries of the menu, top first.
pub open spec fn menu_entries() -> Seq<Seq<char>> {
    seq!["Load Game"@, "New Game"@, "Settings"@, "About"@]
}

/// The tiles of the console once the menu is drawn on it: the console
/// cleared, the title in two lines and the motto a quarter of a tile's
/// height down, each shifted left of the middle by half its length, and
/// the entries from the middle row on.
pub open spec fn menu_drawn<C: Copy>(
    console: &Console<C>,
    gameinfo: &GameInfo,
    curr_sel: int,
    colors: MenuColors<C>,
    entries: Seq<String>,
) -> Seq<ConsoleTile<C>> {
    let width = console.width as int;
    let height = console.height as int;
    let middle = gameinfo.tilemap_width as int / 2;
    let top = gameinfo.tile_height as int / 4;
    let cleared = Seq::new(console.tiles@.len(), |i: int| console.blank());
    let titled = glyphs_set(
        cleared,
        width,
        height,
        top * width + (middle - 3),
        top,
        cp437_codes("Dworld"@),
        console.default_fg,
        console.default_bg,
        "Dworld"@.len() as int,
    );
    let subtitled = glyphs_set(
        titled,
        width,
        height,
        (top + 1) * width + (middle - 6),
        top + 1,
        cp437_codes("Dungeon World"@),
        console.default_fg,
        console.default_bg,
        "Dungeon World"@.len() as int,
    );
    let with_motto = glyphs_set(
        subtitled,
        width,
        height,
        (top + 5) * width + (middle - 12),
        top + 5,
        cp437_codes("The dungeon does not rest"@),
        colors.motto,
        colors.background,
        "The dungeon does not rest"@.len() as int,
    );
    entries_printed(
        with_motto,
        width,
        height,
        middle - 4,
        gameinfo.tilemap_height as int / 2,
        entries,
        curr_sel,
        colors.entry,
        colors.selected,
        colors.background,
        4,
    )
}

impl MainMenuState {
    /// Draws the menu on the console, which must be at least twenty-four
    /// tiles wide by the game's count, so that the motto fits left of the
    /// middle. The menu goes on.
    pub fn update<C: Copy>(
        &self,
        console: &mut Console<C>,
        gameinfo: &GameInfo,
        colors: MenuColors<C>,
    ) -> (trans: MenuTrans)
        requires
            old(console).wf(),
            gameinfo.tilemap_width >= 24,
        ensures
            trans == MenuTrans::Stay,
            final(console).wf(),
            final(console).same_frame(old(console)),
            final(console).is_dirty,
            exists|entries: Seq<String>|
                entries.len() == 4 && (forall|k: int|
                    0 <= k < 4 ==> (#[trigger] entries[k])@ == menu_entries()[k])
                    && #[trigger] menu_drawn(
                    old(console),
                    gameinfo,
                    self.curr_menu_sel as int,
                    colors,
                    entries,
                ) == final(console).tiles@,
    {
        let middle: u32 = gameinfo.tilemap_width / 2;
        let top: u32 = gameinfo.tile_height / 4;
        console.cls();
        let ghost cleared = console.tiles@;
        assert(cleared =~= Seq::new(old(console).tiles@.len(), |i: int| old(console).blank()));
        console.print_str(middle - 3, top, "Dworld");
        console.print_str(middle - 6, top + 1, "Dungeon World");
        console.print_str_cl(
            middle - 12,
            top + 5,
            "The dungeon does not rest",
            colors.motto,
            colors.background,
        );
        let mut menu_options: Vec<String> = Vec::new();
        menu_options.push(String::from_str("Load Game"));
        menu_options.push(String::from_str("New Game"));
        menu_options.push(String::from_str("Settings"));
        menu_options.push(String::from_str("About"));
        let ghost entries = menu_options@;
        proof {
            lemma_menu_entries_are_short(entries);
        }
        selection_box(
            console,
            middle,
            gameinfo.tilemap_height / 2,
            menu_options,
            self.curr_menu_sel,
            colors.entry,
            colors.selected,
            colors.background,
        );
        proof {
            assert(menu_drawn(old(console), gameinfo, self.curr_menu_sel as int, colors, entries)
                == console.tiles@);
        }
        MenuTrans::Stay
    }

    /// Reacts to an event: closing the window and the escape key leave the
    /// game; the arrows move the selection down and up, stopping at the
    /// last and at the first entry; everything else is ignored. A
    /// selection beyond the last entry moves as well, as far as it can be
    /// counted.
    pub fn handle_event(&mut self, event: MenuEvent) -> (trans: MenuTrans)
        ensures
            trans == (match event {
                MenuEvent::CloseRequested | MenuEvent::Escape => MenuTrans::Quit,
                _ => MenuTrans::Stay,
            }),
            final(self).curr_menu_sel == (match event {
                MenuEvent::Down => if old(self).curr_menu_sel != LAST_ENTRY && old(
                    self,
                ).curr_menu_sel < u32::MAX {
                    old(self).curr_menu_sel + 1
                } else {
                    old(self).curr_menu_sel as int
                },
                MenuEvent::Up => if old(self).curr_menu_sel != 0 {
                    old(self).curr_menu_sel - 1
                } else {
                    0
                },
                _ => old(self).curr_menu_sel as int,
            }),
    {
        match event {
            MenuEvent::CloseRequested => MenuTrans::Quit,
            MenuEvent::Escape => MenuTrans::Quit,
            MenuEvent::Down => {
                if self.curr_menu_sel != LAST_ENTRY && self.curr_menu_sel < u32::MAX {
                    self.curr_menu_sel += 1;
                }
                MenuTrans::Stay
            },
            MenuEvent::Up => {
                if self.curr_menu_sel != 0 {
                    self.curr_menu_sel -= 1;
                }
                MenuTrans::Stay
            },
            MenuEvent::Other => MenuTrans::Stay,
        }
    }
}

impl Default for MainMenuState {
    /// The first entry is selected.
    fn default() -> (state: Self)
        ensures
            state.curr_menu_sel == 0,
    {
        MainMenuState { curr_menu_sel: 0 }
    }
}

/// The longest of the menu's entries is nine bytes long.
proof fn lemma_menu_entries_are_short(entries: Seq<String>)
    requires
        entries.len() == 4,
        entries[0]@ == "Load Game"@,
        entries[1]@ == "New Game"@,
        entries[2]@ == "Settings"@,
        entries[3]@ == "About"@,
    ensures
        longest_entry(entries, 4) == 9,
        forall|k: int| 0 <= k < 4 ==> (#[trigger] entries[k])@ == menu_entries()[k],
{
    reveal_strlit("Load Game");
    reveal_strlit("New Game");
    reveal_strlit("Settings");
    reveal_strlit("About");
    vstd::string::is_ascii_spec_bytes("Load Game");
    vstd::string::is_ascii_spec_bytes("New Game");
    vstd::string::is_ascii_spec_bytes("Settings");
    vstd::string::is_ascii_spec_bytes("About");
    reveal_with_fuel(longest_entry, 5);
}

} // verus!
