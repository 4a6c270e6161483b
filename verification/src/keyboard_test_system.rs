//! A system for trying out the keyboard and the console: each key it
//! knows draws something, and one of them stamps a mark one column
//! further to the right at each press.

use crate::codepage::{cp437_code, cp437_codes, glyph_of};
use crate::console::{box_drawn, box_filled, glyphs_set, tile_set, Console, ConsoleTile};
use vstd::prelude::*;

verus! {

/// The keys the system reacts to. Every other key is `Other`.
#[derive(Clone, Copy, Debug, PartialEq, Eq, Structural)]
pub enum TestKey {
    /// Draws samples of everything the console prints.
    A,
    /// Clears the console and starts the marks over.
    Q,
    /// Stamps the next mark.
    Z,
    /// Draws a filled box and an outlined one.
    D,
    Other,
}

/// The colours the system draws in.
#[derive(Clone, Copy, Debug)]
pub struct TestColors<C> {
    /// Foreground of the coloured samples.
    pub sample_fg: C,
    /// Background of the coloured samples.
    pub sample_bg: C,
    /// Foreground of the marks and boxes.
    pub mark_fg: C,
    /// Background of the marks and boxes.
    pub mark_bg: C,
}

/// Where the next mark goes.
pub struct KeyboardTestSystem {
    idx: usize,
}

/// A tile with the glyph of a character.
pub open spec fn char_tile<C>(c: char, fg: C, bg: C) -> ConsoleTile<C> {
    ConsoleTile { glyph: cp437_code(c) as usize, fg, bg }
}

/// The tiles of a console of the given size and colours after the samples
/// were drawn on `tiles`: a glyph by its code, single characters plain
/// and coloured, and a text plain and coloured.
pub open spec fn samples_drawn<C>(
    tiles: Seq<ConsoleTile<C>>,
    width: int,
    height: int,
    default_fg: C,
    default_bg: C,
    colors: TestColors<C>,
) -> Seq<ConsoleTile<C>> {
    let fg = colors.sample_fg;
    let bg = colors.sample_bg;
    let t1 = tile_set(tiles, width, height, 1, 5, ConsoleTile { glyph: 66, fg, bg });
    let t2 = tile_set(t1, width, height, 1, 1, char_tile('a', default_fg, default_bg));
    let t3 = tile_set(t2, width, height, 2, 2, char_tile('b', default_fg, default_bg));
    let t4 = tile_set(t3, width, height, 3, 3, char_tile('@', default_fg, default_bg));
    let t5 = tile_set(t4, width, height, 4, 4, char_tile('Q', fg, bg));
    let t6 = tile_set(t5, width, height, 5, 5, char_tile(']', fg, bg));
    let t7 = tile_set(t6, width, height, 6, 6, char_tile('+', fg, bg));
    let t8 = tile_set(t7, width, height, 53, 35, char_tile('%', fg, bg));
    let t9 = glyphs_set(
        t8,
        width,
        height,
        10 * width + 10,
        10,
        cp437_codes("Hello World"@),
        default_fg,
        default_bg,
        "Hello World"@.len() as int,
    );
    glyphs_set(
        t9,
        width,
        height,
        20 * width + 20,
        20,
        cp437_codes("Hello World"@),
        fg,
        bg,
        "Hello World"@.len() as int,
    )
}

/// The tiles after a mark was stamped in column `column`: a plain one in
/// row 15 and a coloured one in row 30.
pub open spec fn mark_stamped<C>(
    tiles: Seq<ConsoleTile<C>>,
    width: int,
    height: int,
    default_fg: C,
    default_bg: C,
    colors: TestColors<C>,
    column: int,
) -> Seq<ConsoleTile<C>> {
    tile_set(
        tile_set(tiles, width, height, column, 15, char_tile('a', default_fg, default_bg)),
        width,
        height,
        column,
        30,
        char_tile('&', colors.mark_fg, colors.mark_bg),
    )
}

/// The tiles after the boxes were drawn: one of five by five tiles filled
/// with stars, and the outline of another.
pub open spec fn boxes_drawn<C>(
    tiles: Seq<ConsoleTile<C>>,
    width: int,
    colors: TestColors<C>,
) -> Seq<ConsoleTile<C>> {
    box_drawn(
        box_filled(tiles, width, 5, 5, 5, 5, char_tile('*', colors.mark_fg, colors.mark_bg)),
        width,
        30,
        30,
        5,
        5,
        colors.mark_fg,
        colors.mark_bg,
    )
}

impl KeyboardTestSystem {
    /// How many marks were stamped since the system was made or the
    /// console last cleared.
    pub closed spec fn marks(&self) -> nat {
        self.idx as nat
    }

    /// The column of the next mark: the number of marks so far, as far as
    /// a column number can count.
    pub open spec fn column(&self) -> int {
        self.marks() as int % 0x1_0000_0000
    }

    /// The number of marks after one more, as far as it can be counted.
    pub open spec fn one_more(marks: nat) -> nat {
        if marks < usize::MAX {
            marks + 1
        } else {
            marks
        }
    }

    /// Reacts to a key that is down. `A` draws the samples, `Q` clears
    /// the console and starts the marks over, `Z` stamps the next mark,
    /// `D` draws the boxes, and every other key does nothing.
    pub fn run<C: Copy>(&mut self, console: &mut Console<C>, key: TestKey, colors: TestColors<C>)
        requires
            old(console).wf(),
        ensures
            final(console).wf(),
            final(console).same_frame(old(console)),
            final(self).marks() == (match key {
                TestKey::Q => 0,
                TestKey::Z => Self::one_more(old(self).marks()),
                _ => old(self).marks(),
            }),
            final(console).is_dirty == (old(console).is_dirty || key != TestKey::Other),
            match key {
                TestKey::A => final(console).tiles@ == samples_drawn(
                    old(console).tiles@,
                    old(console).width as int,
                    old(console).height as int,
                    old(console).default_fg,
                    old(console).default_bg,
                    colors,
                ),
                TestKey::Q => forall|i: int|
                    0 <= i < final(console).tiles@.len() ==> #[trigger] final(console).tiles@[i]
                        == old(console).blank(),
                TestKey::Z => final(console).tiles@ == mark_stamped(
                    old(console).tiles@,
                    old(console).width as int,
                    old(console).height as int,
                    old(console).default_fg,
                    old(console).default_bg,
                    colors,
                    old(self).column(),
                ),
                TestKey::D => final(console).tiles@ == boxes_drawn(
                    old(console).tiles@,
                    old(console).width as int,
                    colors,
                ),
                TestKey::Other => final(console).tiles@ == old(console).tiles@,
            },
    {
        match key {
            TestKey::A => {
                let fg = colors.sample_fg;
                let bg = colors.sample_bg;
                console.set(1, 5, 66, fg, bg);
                console.print(1, 1, 'a');
                console.print(2, 2, 'b');
                console.print(3, 3, '@');
                console.print_cl(4, 4, 'Q', fg, bg);
                console.print_cl(5, 5, ']', fg, bg);
                console.print_cl(6, 6, '+', fg, bg);
                console.print_cl(53, 35, '%', fg, bg);
                console.print_str(10, 10, "Hello World");
                console.print_str_cl(20, 20, "Hello World", fg, bg);
            },
            TestKey::Q => {
                console.cls();
                self.idx = 0;
            },
            TestKey::Z => {
                let fg = colors.mark_fg;
                let bg = colors.mark_bg;
                let idx = (self.idx as u64 % 0x1_0000_0000) as u32;
                console.print(idx, 15, 'a');
                console.print_cl(idx, 30, '&', fg, bg);
                if self.idx < usize::MAX {
                    self.idx += 1;
                }
            },
            TestKey::D => {
                let fg = colors.mark_fg;
                let bg = colors.mark_bg;
                console.draw_fillbox(5, 5, 5, 5, glyph_of('*'), fg, bg);
                console.draw_box(30, 30, 5, 5, fg, bg);
            },
            TestKey::Other => {},
        }
    }
}

impl Default for KeyboardTestSystem {
    /// No mark was stamped yet.
    fn default() -> (system: Self)
        ensures
            system.marks() == 0,
    {
        Self { idx: 0 }
    }
}

} // verus!
