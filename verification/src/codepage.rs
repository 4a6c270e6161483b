//! Glyph codes: the place of a character in the console's font.

use vstd::prelude::*;
use vstd::string::StrSliceExecFns;

verus! {

/// The code that `rltk::to_cp437` gives for a character: its place in
/// code page 437, a table of some two hundred and fifty characters.
pub uninterp spec fn cp437_code(c: char) -> u16;

/// The codes of the characters of a text, one for one.
pub open spec fn cp437_codes(text: Seq<char>) -> Seq<u16> {
    Seq::new(text.len(), |k: int| cp437_code(text[k]))
}

/// Looks up the code of a character with `rltk::to_cp437`. The table is
/// not written out here: the result is known only as `cp437_code` of the
/// character, a value that depends on the character alone.
#[verifier::external_body]
pub(crate) fn to_cp437(c: char) -> (code: u16)
    ensures
        code == cp437_code(c),
{
    rltk::to_cp437(c)
}

/// The codes of the characters of `text`, one for one.
pub fn string_to_cp437(text: &str) -> (codes: Vec<u16>)
    ensures
        codes@ == cp437_codes(text@),
{
    let n = text.unicode_len();
    let mut codes: Vec<u16> = Vec::new();
    let mut k: usize = 0;
    while k < n
        invariant
            k <= n,
            n == text@.len(),
            codes@.len() == k,
            forall|j: int| 0 <= j < k ==> #[trigger] codes@[j] == cp437_code(text@[j]),
        decreases n - k,
    {
        codes.push(to_cp437(text.get_char(k)));
        k += 1;
    }
    codes
}

/// The code of a single character.
pub fn glyph_of(c: char) -> (code: usize)
    ensures
        code == cp437_code(c),
{
    to_cp437(c) as usize
}

} // verus!
