//! Drawing that builds on the console's own.

use crate::codepage::cp437_codes;
use crate::console::{glyphs_set, Console, ConsoleTile};
use vstd::prelude::*;
use vstd::utf8::encode_utf8;

verus! {

/// The length in bytes of the longest of the first `n` entries.
pub open spec fn longest_entry(entries: Seq<String>, n: int) -> int
    decreases n,
{
    if n <= 0 {
        0
    } else if encode_utf8(entries[n - 1]@).len() > longest_entry(entries, n - 1) {
        encode_utf8(entries[n - 1]@).len() as int
    } else {
        longest_entry(entries, n - 1)
    }
}

/// `tiles` after the first `n` entries were printed, one below the other
/// from row `y` on, each starting at column `x`: the entry that is
/// selected in the colour `sel`, every other in the colour `non_sel`.
pub open spec fn entries_printed<C>(
    tiles: Seq<ConsoleTile<C>>,
    width: int,
    height: int,
    x: int,
    y: int,
    entries: Seq<String>,
    curr_sel: int,
    non_sel: C,
    sel: C,
    bg: C,
    n: int,
) -> Seq<ConsoleTile<C>>
    decreases n,
{
    if n <= 0 {
        tiles
    } else {
        glyphs_set(
            entries_printed(tiles, width, height, x, y, entries, curr_sel, non_sel, sel, bg, n - 1),
            width,
            height,
            (y + n - 1) * width + x,
            y + n - 1,
            cp437_codes(entries[n - 1]@),
            if n - 1 == curr_sel {
                sel
            } else {
                non_sel
            },
            bg,
            entries[n - 1]@.len() as int,
        )
    }
}

/// Printing the first `n` entries marks the console dirty: one of them
/// is not empty and starts at a place that the grid has.
pub open spec fn entries_mark_dirty(
    tiles_len: int,
    width: int,
    x: int,
    y: int,
    entries: Seq<String>,
    n: int,
) -> bool
    decreases n,
{
    if n <= 0 {
        false
    } else {
        entries_mark_dirty(tiles_len, width, x, y, entries, n - 1) || (entries[n - 1]@.len() > 0
            && (y + n - 1) * width + x < tiles_len)
    }
}

/// Prints the entries one below the other from row `y` on, shifted left
/// of column `x` by half the length in bytes of the longest entry, on the
/// background `bg`. The entry number `curr_sel` is printed in
/// `sel_col`, every other in `non_sel_col`. The shift must not pass the
/// left edge, nor the rows the number range.
pub fn selection_box<C: Copy>(
    console: &mut Console<C>,
    x: u32,
    y: u32,
    entries: Vec<String>,
    curr_sel: u32,
    non_sel_col: C,
    sel_col: C,
    bg: C,
)
    requires
        old(console).wf(),
        longest_entry(entries@, entries@.len() as int) / 2 <= x,
        entries@.len() <= u32::MAX,
        y + entries@.len() <= u32::MAX + 1,
    ensures
        final(console).wf(),
        final(console).same_frame(old(console)),
        final(console).is_dirty == (old(console).is_dirty || entries_mark_dirty(
            old(console).tiles@.len() as int,
            old(console).width as int,
            x - longest_entry(entries@, entries@.len() as int) / 2,
            y as int,
            entries@,
            entries@.len() as int,
        )),
        final(console).tiles@ == entries_printed(
            old(console).tiles@,
            old(console).width as int,
            old(console).height as int,
            x - longest_entry(entries@, entries@.len() as int) / 2,
            y as int,
            entries@,
            curr_sel as int,
            non_sel_col,
            sel_col,
            bg,
            entries@.len() as int,
        ),
{
    let mut longest_str_len: usize = 0;
    let mut k: usize = 0;
    while k < entries.len()
        invariant
            k <= entries@.len(),
            longest_str_len == longest_entry(entries@, k as int),
        decreases entries@.len() - k,
    {
        let len = entries[k].as_str().as_bytes().len();
        if len > longest_str_len {
            longest_str_len = len;
        }
        k += 1;
    }
    let x_center: u32 = (longest_str_len / 2) as u32;
    let left: u32 = x - x_center;
    let mut idy: u32 = 0;
    let mut k: usize = 0;
    while k < entries.len()
        invariant
            k <= entries@.len(),
            idy == k,
            entries@.len() <= u32::MAX,
            y + entries@.len() <= u32::MAX + 1,
            left == x - longest_entry(entries@, entries@.len() as int) / 2,
            old(console).wf(),
            console.wf(),
            console.same_frame(old(console)),
            console.is_dirty == (old(console).is_dirty || entries_mark_dirty(
                old(console).tiles@.len() as int,
                old(console).width as int,
                left as int,
                y as int,
                entries@,
                k as int,
            )),
            console.tiles@ == entries_printed(
                old(console).tiles@,
                old(console).width as int,
                old(console).height as int,
                left as int,
                y as int,
                entries@,
                curr_sel as int,
                non_sel_col,
                sel_col,
                bg,
                k as int,
            ),
        decreases entries@.len() - k,
    {
        if idy == curr_sel {
            console.print_str_cl(left, y + idy, entries[k].as_str(), sel_col, bg);
        } else {
            console.print_str_cl(left, y + idy, entries[k].as_str(), non_sel_col, bg);
        }
        idy += 1;
        k += 1;
    }
}

} // verus!
