//! A console: a grid of glyphs, each with a foreground and a background
//! colour. The console does not care what a colour is; `C` is whatever
//! the screen it is shown on takes for one.

use crate::codepage::{cp437_code, cp437_codes, glyph_of, string_to_cp437};
use vstd::prelude::*;

verus! {

/// The code of the blank glyph.
pub const BLANK: usize = 32;

/// One tile of the console.
pub struct ConsoleTile<C> {
    pub glyph: usize,
    pub fg: C,
    pub bg: C,
}

/// A grid of tiles, row-major, with the colours that plain text is
/// printed in. `is_dirty` says that the grid changed since it was last
/// shown.
pub struct Console<C> {
    pub width: u32,
    pub height: u32,
    pub tiles: Vec<ConsoleTile<C>>,
    pub is_dirty: bool,
    pub default_fg: C,
    pub default_bg: C,
}

/// `tiles`, with the tile in column `x` of row `y` replaced by `tile` if
/// there is such a tile in a grid of the given size.
pub open spec fn tile_set<C>(
    tiles: Seq<ConsoleTile<C>>,
    width: int,
    height: int,
    x: int,
    y: int,
    tile: ConsoleTile<C>,
) -> Seq<ConsoleTile<C>> {
    if 0 <= x < width && 0 <= y < height && y * width + x < tiles.len() {
        tiles.update(y * width + x, tile)
    } else {
        tiles
    }
}

/// `tiles` after the first `n` of `codes` were printed in row `y`: code
/// number `k` is set in column `start + k`, as long as `start + k` is
/// less than the number of tiles.
pub open spec fn glyphs_set<C>(
    tiles: Seq<ConsoleTile<C>>,
    width: int,
    height: int,
    start: int,
    y: int,
    codes: Seq<u16>,
    fg: C,
    bg: C,
    n: int,
) -> Seq<ConsoleTile<C>>
    decreases n,
{
    if n <= 0 {
        tiles
    } else {
        let earlier = glyphs_set(tiles, width, height, start, y, codes, fg, bg, n - 1);
        if start + n - 1 < tiles.len() {
            tile_set(
                earlier,
                width,
                height,
                start + n - 1,
                y,
                ConsoleTile { glyph: codes[n - 1] as usize, fg, bg },
            )
        } else {
            earlier
        }
    }
}

/// The glyph that a box with corner `(x, y)`, `width` wide and `height`
/// high, puts on the tile `(tx, ty)`, if any: bars on the sides, dashes
/// at the top and bottom, and a corner piece in each corner. Where pieces
/// fall on one tile, the bottom corners cover the top ones and the right
/// corners the left ones.
pub open spec fn box_glyph(x: int, y: int, width: int, height: int, tx: int, ty: int) -> Option<
    char,
> {
    if (tx == x || tx == x + width) && y < ty < y + height {
        Some('|')
    } else if (ty == y || ty == y + height) && x < tx < x + width {
        Some('-')
    } else if tx == x + width && ty == y + height {
        Some('┘')
    } else if tx == x && ty == y + height {
        Some('└')
    } else if tx == x + width && ty == y {
        Some('┐')
    } else if tx == x && ty == y {
        Some('┌')
    } else {
        None
    }
}

/// `tiles` with every tile of the box with corner `(x, y)`, `box_width`
/// wide and `box_height` high, replaced by `tile`, in a grid of the
/// given width.
pub open spec fn box_filled<C>(
    tiles: Seq<ConsoleTile<C>>,
    width: int,
    x: int,
    y: int,
    box_width: int,
    box_height: int,
    tile: ConsoleTile<C>,
) -> Seq<ConsoleTile<C>> {
    Seq::new(
        tiles.len(),
        |i: int|
            if x <= i % width < x + box_width && y <= i / width < y + box_height {
                tile
            } else {
                tiles[i]
            },
    )
}

/// `tiles` with the outline of the box with corner `(x, y)`, `box_width`
/// wide and `box_height` high, drawn in the given colours, in a grid of
/// the given width.
pub open spec fn box_drawn<C>(
    tiles: Seq<ConsoleTile<C>>,
    width: int,
    x: int,
    y: int,
    box_width: int,
    box_height: int,
    fg: C,
    bg: C,
) -> Seq<ConsoleTile<C>> {
    Seq::new(
        tiles.len(),
        |i: int|
            match box_glyph(x, y, box_width, box_height, i % width, i / width) {
                Some(c) => ConsoleTile { glyph: cp437_code(c) as usize, fg, bg },
                None => tiles[i],
            },
    )
}

/// The glyph that a box puts on the tile `(tx, ty)` once its corners are
/// drawn, its dashes as far as column `dashes` and its bars as far as row
/// `bars`, each not included.
pub open spec fn box_glyph_so_far(
    x: int,
    y: int,
    width: int,
    height: int,
    dashes: int,
    bars: int,
    tx: int,
    ty: int,
) -> Option<char> {
    if (tx == x || tx == x + width) && y < ty < y + height && ty < bars {
        Some('|')
    } else if (ty == y || ty == y + height) && x < tx < x + width && tx < dashes {
        Some('-')
    } else if tx == x + width && ty == y + height {
        Some('┘')
    } else if tx == x && ty == y + height {
        Some('└')
    } else if tx == x + width && ty == y {
        Some('┐')
    } else if tx == x && ty == y {
        Some('┌')
    } else {
        None
    }
}

impl<C: Copy> Console<C> {
    /// The grid has one tile for each column of each row, and no more
    /// tiles than the sizes can count.
    pub open spec fn wf(&self) -> bool {
        self.tiles@.len() == self.width * self.height && self.width * self.height <= u32::MAX
    }

    /// The tile in column `x` of row `y`.
    pub open spec fn tile_at(&self, x: int, y: int) -> ConsoleTile<C> {
        self.tiles@[y * self.width + x]
    }

    /// `(x, y)` is a tile of the console.
    pub open spec fn in_bounds(&self, x: int, y: int) -> bool {
        0 <= x < self.width && 0 <= y < self.height
    }

    /// A blank tile in the console's own colours.
    pub open spec fn blank(&self) -> ConsoleTile<C> {
        ConsoleTile { glyph: BLANK, fg: self.default_fg, bg: self.default_bg }
    }

    /// `self` has the size and the colours of `before`.
    pub open spec fn same_frame(&self, before: &Console<C>) -> bool {
        &&& self.width == before.width
        &&& self.height == before.height
        &&& self.default_fg == before.default_fg
        &&& self.default_bg == before.default_bg
        &&& self.tiles@.len() == before.tiles@.len()
    }

    proof fn lemma_tile_index(&self, x: int, y: int)
        requires
            self.wf(),
            self.in_bounds(x, y),
        ensures
            0 <= y * self.width + x < self.tiles@.len(),
    {
        let w = self.width as int;
        let h = self.height as int;
        assert(y * w + x < w * h) by (nonlinear_arith)
            requires
                0 <= x < w,
                0 <= y < h,
        ;
        assert(0 <= y * w + x) by (nonlinear_arith)
            requires
                0 <= x,
                0 <= y,
                0 < w,
        ;
    }

    proof fn lemma_tile_index_is_injective(&self, xa: int, ya: int, xb: int, yb: int)
        requires
            self.in_bounds(xa, ya),
            self.in_bounds(xb, yb),
            ya * self.width + xa == yb * self.width + xb,
        ensures
            xa == xb,
            ya == yb,
    {
        let w = self.width as int;
        vstd::arithmetic::div_mod::lemma_fundamental_div_mod_converse(ya * w + xa, w, ya, xa);
        vstd::arithmetic::div_mod::lemma_fundamental_div_mod_converse(yb * w + xb, w, yb, xb);
    }

    /// Setting a tile of the grid changes that tile and no other.
    proof fn lemma_tile_set(&self, before: &Console<C>, x: int, y: int, tile: ConsoleTile<C>)
        requires
            before.wf(),
            self.same_frame(before),
            self.tiles@ == tile_set(
                before.tiles@,
                before.width as int,
                before.height as int,
                x,
                y,
                tile,
            ),
        ensures
            forall|tx: int, ty: int|
                before.in_bounds(tx, ty) ==> #[trigger] self.tile_at(tx, ty) == (if tx == x && ty
                    == y {
                    tile
                } else {
                    before.tile_at(tx, ty)
                }),
    {
        assert forall|tx: int, ty: int| before.in_bounds(tx, ty) implies #[trigger] self.tile_at(
            tx,
            ty,
        ) == (if tx == x && ty == y {
            tile
        } else {
            before.tile_at(tx, ty)
        }) by {
            before.lemma_tile_index(tx, ty);
            if before.in_bounds(x, y) {
                before.lemma_tile_index(x, y);
                if ty * before.width + tx == y * before.width + x {
                    before.lemma_tile_index_is_injective(tx, ty, x, y);
                }
            }
        }
    }

    /// Whether the console is well formed.
    pub fn is_well_formed(&self) -> (good: bool)
        ensures
            good == self.wf(),
    {
        assert(0 <= self.width * self.height <= 0xffff_ffff * 0xffff_ffff) by (nonlinear_arith)
            requires
                0 <= self.width <= 0xffff_ffff,
                0 <= self.height <= 0xffff_ffff,
        ;
        let area: u64 = self.width as u64 * self.height as u64;
        area <= 0xffff_ffff && self.tiles.len() as u64 == area
    }

    /// A console of the given size, every tile blank in the given colours,
    /// and dirty, so that it is shown.
    pub fn init(width: u32, height: u32, default_fg: C, default_bg: C) -> (console: Console<C>)
        requires
            width * height <= u32::MAX,
        ensures
            console.wf(),
            console.width == width,
            console.height == height,
            console.default_fg == default_fg,
            console.default_bg == default_bg,
            console.is_dirty,
            forall|i: int|
                0 <= i < console.tiles@.len() ==> #[trigger] console.tiles@[i] == console.blank(),
    {
        assert(width * height >= 0) by (nonlinear_arith)
            requires
                0 <= width,
                0 <= height,
        ;
        let num_tiles: u64 = width as u64 * height as u64;
        let mut tiles: Vec<ConsoleTile<C>> = Vec::new();
        let mut i: u64 = 0;
        while i < num_tiles
            invariant
                i <= num_tiles,
                tiles@.len() == i,
                forall|j: int|
                    0 <= j < i ==> #[trigger] tiles@[j] == (ConsoleTile {
                        glyph: BLANK,
                        fg: default_fg,
                        bg: default_bg,
                    }),
            decreases num_tiles - i,
        {
            tiles.push(ConsoleTile { glyph: BLANK, fg: default_fg, bg: default_bg });
            i += 1;
        }
        Console { width, height, tiles, is_dirty: true, default_fg, default_bg }
    }

    /// Sets the tile in column `x` of row `y`, if the console has such a
    /// tile, and marks the console dirty in any case.
    pub fn set(&mut self, x: u32, y: u32, glyph: usize, fg: C, bg: C)
        requires
            old(self).wf(),
        ensures
            final(self).wf(),
            final(self).same_frame(old(self)),
            final(self).is_dirty,
            final(self).tiles@ == tile_set(
                old(self).tiles@,
                old(self).width as int,
                old(self).height as int,
                x as int,
                y as int,
                ConsoleTile { glyph, fg, bg },
            ),
    {
        self.is_dirty = true;
        if x < self.width && y < self.height {
            proof {
                self.lemma_tile_index(x as int, y as int);
                assert(y * self.width >= 0) by (nonlinear_arith)
                    requires
                        y >= 0,
                        self.width >= 0,
                ;
            }
            let idx = (y * self.width + x) as usize;
            self.tiles[idx].glyph = glyph;
            self.tiles[idx].fg = fg;
            self.tiles[idx].bg = bg;
        }
    }

    /// Prints a character in the console's own colours.
    pub fn print(&mut self, x: u32, y: u32, glyph: char)
        requires
            old(self).wf(),
        ensures
            final(self).wf(),
            final(self).same_frame(old(self)),
            final(self).is_dirty,
            final(self).tiles@ == tile_set(
                old(self).tiles@,
                old(self).width as int,
                old(self).height as int,
                x as int,
                y as int,
                ConsoleTile {
                    glyph: cp437_code(glyph) as usize,
                    fg: old(self).default_fg,
                    bg: old(self).default_bg,
                },
            ),
    {
        let output = glyph_of(glyph);
        let fg = self.default_fg;
        let bg = self.default_bg;
        self.set(x, y, output, fg, bg);
    }

    /// Prints a character in the given colours.
    pub fn print_cl(&mut self, x: u32, y: u32, glyph: char, fg: C, bg: C)
        requires
            old(self).wf(),
        ensures
            final(self).wf(),
            final(self).same_frame(old(self)),
            final(self).is_dirty,
            final(self).tiles@ == tile_set(
                old(self).tiles@,
                old(self).width as int,
                old(self).height as int,
                x as int,
                y as int,
                ConsoleTile { glyph: cp437_code(glyph) as usize, fg, bg },
            ),
    {
        let output = glyph_of(glyph);
        self.set(x, y, output, fg, bg);
    }

    /// Prints glyph codes in row `y`, counting columns from the place of
    /// the tile `(x, y)` in the grid: code number `k` is set in column
    /// `y * width + x + k` of row `y`, as long as that number is less
    /// than the number of tiles. So only in the first row does the text
    /// start in column `x`; in every other row it lies beyond the right
    /// edge and nothing is set. The console is marked dirty if a code was
    /// tried at all.
    pub fn print_glyphs(&mut self, x: u32, y: u32, codes: &Vec<u16>, fg: C, bg: C)
        requires
            old(self).wf(),
        ensures
            final(self).wf(),
            final(self).same_frame(old(self)),
            final(self).is_dirty == (old(self).is_dirty || (codes@.len() > 0 && y * old(
                self,
            ).width + x < old(self).tiles@.len())),
            final(self).tiles@ == glyphs_set(
                old(self).tiles@,
                old(self).width as int,
                old(self).height as int,
                y * old(self).width + x,
                y as int,
                codes@,
                fg,
                bg,
                codes@.len() as int,
            ),
    {
        assert(y * self.width >= 0 && y * self.width <= 0xffff_ffff * 0xffff_ffff)
            by (nonlinear_arith)
            requires
                0 <= y <= 0xffff_ffff,
                0 <= self.width <= 0xffff_ffff,
        ;
        let start: u64 = y as u64 * self.width as u64 + x as u64;
        let count: usize = self.tiles.len();
        let mut k: usize = 0;
        while k < codes.len()
            invariant
                k <= codes@.len(),
                old(self).wf(),
                self.wf(),
                self.same_frame(old(self)),
                count == self.tiles@.len(),
                start == y * old(self).width + x,
                self.is_dirty == (old(self).is_dirty || (k > 0 && start < count)),
                self.tiles@ == glyphs_set(
                    old(self).tiles@,
                    old(self).width as int,
                    old(self).height as int,
                    start as int,
                    y as int,
                    codes@,
                    fg,
                    bg,
                    k as int,
                ),
            decreases codes@.len() - k,
        {
            if start < count as u64 && k as u64 <= count as u64 - 1 - start {
                let at: u64 = start + k as u64;
                self.set(at as u32, y, codes[k] as usize, fg, bg);
            }
            k += 1;
        }
    }

    /// Prints a text in the console's own colours; see `print_glyphs` for
    /// where it goes.
    pub fn print_str(&mut self, x: u32, y: u32, output: &str)
        requires
            old(self).wf(),
        ensures
            final(self).wf(),
            final(self).same_frame(old(self)),
            final(self).is_dirty == (old(self).is_dirty || (output@.len() > 0 && y * old(
                self,
            ).width + x < old(self).tiles@.len())),
            final(self).tiles@ == glyphs_set(
                old(self).tiles@,
                old(self).width as int,
                old(self).height as int,
                y * old(self).width + x,
                y as int,
                cp437_codes(output@),
                old(self).default_fg,
                old(self).default_bg,
                output@.len() as int,
            ),
    {
        let bytes = string_to_cp437(output);
        let fg = self.default_fg;
        let bg = self.default_bg;
        self.print_glyphs(x, y, &bytes, fg, bg);
    }

    /// Prints a text in the given colours; see `print_glyphs` for where
    /// it goes.
    pub fn print_str_cl(&mut self, x: u32, y: u32, output: &str, fg: C, bg: C)
        requires
            old(self).wf(),
        ensures
            final(self).wf(),
            final(self).same_frame(old(self)),
            final(self).is_dirty == (old(self).is_dirty || (output@.len() > 0 && y * old(
                self,
            ).width + x < old(self).tiles@.len())),
            final(self).tiles@ == glyphs_set(
                old(self).tiles@,
                old(self).width as int,
                old(self).height as int,
                y * old(self).width + x,
                y as int,
                cp437_codes(output@),
                fg,
                bg,
                output@.len() as int,
            ),
    {
        let bytes = string_to_cp437(output);
        self.print_glyphs(x, y, &bytes, fg, bg);
    }

    /// Clears the console: every tile is blank in the console's own
    /// colours, and the console is dirty.
    pub fn cls(&mut self)
        requires
            old(self).wf(),
        ensures
            final(self).wf(),
            final(self).same_frame(old(self)),
            final(self).is_dirty,
            forall|i: int|
                0 <= i < final(self).tiles@.len() ==> #[trigger] final(self).tiles@[i] == old(
                    self,
                ).blank(),
    {
        self.is_dirty = true;
        let fg = self.default_fg;
        let bg = self.default_bg;
        let count: usize = self.tiles.len();
        let mut i: usize = 0;
        while i < count
            invariant
                i <= count,
                count == self.tiles@.len(),
                self.wf(),
                self.same_frame(old(self)),
                self.is_dirty,
                fg == old(self).default_fg,
                bg == old(self).default_bg,
                forall|j: int| 0 <= j < i ==> #[trigger] self.tiles@[j] == old(self).blank(),
            decreases count - i,
        {
            self.tiles[i].glyph = BLANK;
            self.tiles[i].fg = fg;
            self.tiles[i].bg = bg;
            i += 1;
        }
    }

    /// Every place in the grid is the place of one tile in bounds.
    proof fn lemma_index_is_tile(&self, i: int)
        requires
            self.wf(),
            0 <= i < self.tiles@.len(),
        ensures
            self.in_bounds(i % (self.width as int), i / (self.width as int)),
            (i / (self.width as int)) * self.width + i % (self.width as int) == i,
    {
        let w = self.width as int;
        let h = self.height as int;
        assert(w > 0) by (nonlinear_arith)
            requires
                0 <= i < w * h,
                w >= 0,
        ;
        vstd::arithmetic::div_mod::lemma_fundamental_div_mod(i, w);
        vstd::arithmetic::div_mod::lemma_mod_bound(i, w);
        let q = i / w;
        let r = i % w;
        assert(w * q == q * w) by (nonlinear_arith);
        assert(q >= 0) by (nonlinear_arith)
            requires
                i == w * q + r,
                0 <= r < w,
                0 <= i,
        ;
        assert(q < h) by (nonlinear_arith)
            requires
                i == w * q + r,
                0 <= r < w,
                i < w * h,
                0 < w,
        ;
    }

    /// Sets the tile `(x, y)`, given by numbers of any size, if the
    /// console has such a tile, and marks the console dirty.
    fn stamp(&mut self, x: u64, y: u64, glyph: usize, fg: C, bg: C)
        requires
            old(self).wf(),
        ensures
            final(self).wf(),
            final(self).same_frame(old(self)),
            final(self).is_dirty,
            forall|tx: int, ty: int|
                old(self).in_bounds(tx, ty) ==> #[trigger] final(self).tile_at(tx, ty) == (if tx
                    == x && ty == y {
                    ConsoleTile { glyph, fg, bg }
                } else {
                    old(self).tile_at(tx, ty)
                }),
    {
        if x <= 0xffff_ffff && y <= 0xffff_ffff {
            self.set(x as u32, y as u32, glyph, fg, bg);
            proof {
                self.lemma_tile_set(old(self), x as int, y as int, ConsoleTile { glyph, fg, bg });
            }
        } else {
            self.is_dirty = true;
        }
    }

    /// Fills the box with corner `(x, y)`, `width` wide and `height`
    /// high, with one tile, as far as it lies on the console. The console
    /// is marked dirty unless the box is empty.
    pub fn draw_fillbox(
        &mut self,
        x: u32,
        y: u32,
        width: u32,
        height: u32,
        glyph: usize,
        fg: C,
        bg: C,
    )
        requires
            old(self).wf(),
        ensures
            final(self).wf(),
            final(self).same_frame(old(self)),
            final(self).is_dirty == (old(self).is_dirty || (width > 0 && height > 0)),
            final(self).tiles@ == box_filled(
                old(self).tiles@,
                old(self).width as int,
                x as int,
                y as int,
                width as int,
                height as int,
                ConsoleTile { glyph, fg, bg },
            ),
    {
        let tile_x_end: u64 = x as u64 + width as u64;
        let tile_y_end: u64 = y as u64 + height as u64;
        let x_end: u64 = if tile_x_end < self.width as u64 {
            tile_x_end
        } else {
            self.width as u64
        };
        let y_end: u64 = if tile_y_end < self.height as u64 {
            tile_y_end
        } else {
            self.height as u64
        };
        if width > 0 && height > 0 {
            self.is_dirty = true;
        }
        let mut y_idx: u64 = y as u64;
        while y_idx < y_end
            invariant
                y <= y_idx,
                y_end <= old(self).height,
                y_end <= y + height,
                x_end <= old(self).width,
                x_end <= x + width,
                x + width <= x_end || x_end == old(self).width,
                old(self).wf(),
                self.wf(),
                self.same_frame(old(self)),
                self.is_dirty == (old(self).is_dirty || (width > 0 && height > 0)),
                forall|tx: int, ty: int|
                    old(self).in_bounds(tx, ty) ==> #[trigger] self.tile_at(tx, ty) == (if x <= tx
                        < x + width && y <= ty < y + height && ty < y_idx {
                        ConsoleTile { glyph, fg, bg }
                    } else {
                        old(self).tile_at(tx, ty)
                    }),
            decreases y_end - y_idx,
        {
            let mut x_idx: u64 = x as u64;
            while x_idx < x_end
                invariant
                    x <= x_idx,
                    y <= y_idx < y_end,
                    y_end <= old(self).height,
                    y_end <= y + height,
                    x_end <= old(self).width,
                    x_end <= x + width,
                    x + width <= x_end || x_end == old(self).width,
                    old(self).wf(),
                    self.wf(),
                    self.same_frame(old(self)),
                    self.is_dirty == (old(self).is_dirty || (width > 0 && height > 0)),
                    forall|tx: int, ty: int|
                        old(self).in_bounds(tx, ty) ==> #[trigger] self.tile_at(tx, ty) == (if x
                            <= tx < x + width && y <= ty < y + height && (ty < y_idx || (ty == y_idx
                            && tx < x_idx)) {
                            ConsoleTile { glyph, fg, bg }
                        } else {
                            old(self).tile_at(tx, ty)
                        }),
                decreases x_end - x_idx,
            {
                self.stamp(x_idx, y_idx, glyph, fg, bg);
                x_idx += 1;
            }
            y_idx += 1;
        }
        proof {
            assert forall|i: int| 0 <= i < self.tiles@.len() implies self.tiles@[i] == box_filled(
                old(self).tiles@,
                old(self).width as int,
                x as int,
                y as int,
                width as int,
                height as int,
                ConsoleTile { glyph, fg, bg },
            )[i] by {
                old(self).lemma_index_is_tile(i);
                let tx = i % (self.width as int);
                let ty = i / (self.width as int);
                assert(self.tile_at(tx, ty) == self.tiles@[i]);
            }
        }
    }

    /// Draws the outline of the box with corner `(x, y)`, `width` wide
    /// and `height` high, as far as it lies on the console: a corner
    /// piece in each corner, dashes between them at the top and bottom
    /// and bars on the sides. The console is marked dirty.
    pub fn draw_box(&mut self, x: u32, y: u32, width: u32, height: u32, fg: C, bg: C)
        requires
            old(self).wf(),
        ensures
            final(self).wf(),
            final(self).same_frame(old(self)),
            final(self).is_dirty,
            final(self).tiles@ == box_drawn(
                old(self).tiles@,
                old(self).width as int,
                x as int,
                y as int,
                width as int,
                height as int,
                fg,
                bg,
            ),
    {
        let left: u64 = x as u64;
        let right: u64 = x as u64 + width as u64;
        let top: u64 = y as u64;
        let bottom: u64 = y as u64 + height as u64;
        let corner_tl = glyph_of('┌');
        let corner_tr = glyph_of('┐');
        let corner_bl = glyph_of('└');
        let corner_br = glyph_of('┘');
        let dash = glyph_of('-');
        let bar = glyph_of('|');
        self.stamp(left, top, corner_tl, fg, bg);
        self.stamp(right, top, corner_tr, fg, bg);
        self.stamp(left, bottom, corner_bl, fg, bg);
        self.stamp(right, bottom, corner_br, fg, bg);
        let x_end: u64 = if right < self.width as u64 {
            right
        } else {
            self.width as u64
        };
        let y_end: u64 = if bottom < self.height as u64 {
            bottom
        } else {
            self.height as u64
        };
        let mut x_idx: u64 = left + 1;
        while x_idx < x_end
            invariant
                left < x_idx,
                left == x,
                right == x + width,
                top == y,
                bottom == y + height,
                x_end <= old(self).width,
                x_end <= right,
                right <= x_end || x_end == old(self).width,
                dash == cp437_code('-'),
                old(self).wf(),
                self.wf(),
                self.same_frame(old(self)),
                self.is_dirty,
                forall|tx: int, ty: int|
                    old(self).in_bounds(tx, ty) ==> #[trigger] self.tile_at(tx, ty) == (
                    match box_glyph_so_far(
                        x as int,
                        y as int,
                        width as int,
                        height as int,
                        x_idx as int,
                        y as int,
                        tx,
                        ty,
                    ) {
                        Some(c) => ConsoleTile { glyph: cp437_code(c) as usize, fg, bg },
                        None => old(self).tile_at(tx, ty),
                    }),
            decreases x_end - x_idx,
        {
            self.stamp(x_idx, top, dash, fg, bg);
            self.stamp(x_idx, bottom, dash, fg, bg);
            x_idx += 1;
        }
        let mut y_idx: u64 = top + 1;
        while y_idx < y_end
            invariant
                top < y_idx,
                left == x,
                right == x + width,
                top == y,
                bottom == y + height,
                y_end <= old(self).height,
                y_end <= bottom,
                bottom <= y_end || y_end == old(self).height,
                bar == cp437_code('|'),
                old(self).wf(),
                self.wf(),
                self.same_frame(old(self)),
                self.is_dirty,
                forall|tx: int, ty: int|
                    old(self).in_bounds(tx, ty) ==> #[trigger] self.tile_at(tx, ty) == (
                    match box_glyph_so_far(
                        x as int,
                        y as int,
                        width as int,
                        height as int,
                        x + width,
                        y_idx as int,
                        tx,
                        ty,
                    ) {
                        Some(c) => ConsoleTile { glyph: cp437_code(c) as usize, fg, bg },
                        None => old(self).tile_at(tx, ty),
                    }),
            decreases y_end - y_idx,
        {
            self.stamp(left, y_idx, bar, fg, bg);
            self.stamp(right, y_idx, bar, fg, bg);
            y_idx += 1;
        }
        proof {
            assert forall|i: int| 0 <= i < self.tiles@.len() implies self.tiles@[i] == box_drawn(
                old(self).tiles@,
                old(self).width as int,
                x as int,
                y as int,
                width as int,
                height as int,
                fg,
                bg,
            )[i] by {
                old(self).lemma_index_is_tile(i);
                let tx = i % (self.width as int);
                let ty = i / (self.width as int);
                assert(self.tile_at(tx, ty) == self.tiles@[i]);
            }
        }
    }
}

} // verus!
