//! Chance: the only places where the library draws random numbers.

use rand::Rng;
use vstd::prelude::*;

verus! {

/// Draws a number with `rand::Rng::gen_range` from the generator that
/// `rand::thread_rng` keeps for the running thread, seeded by the system.
/// The outcome is random; all that is claimed of it is that it lies in
/// the half-open range from `low` up to, but not including, `high`. An
/// empty range is ruled out, as the call would not return.
#[verifier::external_body]
pub(crate) fn random_range(low: i32, high: i32) -> (n: i32)
    requires
        low < high,
    ensures
        low <= n < high,
{
    rand::thread_rng().gen_range(low, high)
}

/// Rolls `n` dice of `die_type` sides with `roll_dice` of a new
/// `rltk::RandomNumberGenerator`, seeded by the system, and returns their
/// sum. The outcome is random; all that is claimed of it is that each die
/// shows between one and `die_type`, so that the sum lies between `n` and
/// `n` times `die_type`. Dice without sides and sums beyond the number
/// range are ruled out, as the call would not return.
#[verifier::external_body]
pub(crate) fn roll_dice(n: i32, die_type: i32) -> (roll: i32)
    requires
        0 <= n,
        1 <= die_type < i32::MAX,
        n * die_type <= i32::MAX,
    ensures
        n <= roll <= n * die_type,
{
    rltk::RandomNumberGenerator::new().roll_dice(n, die_type)
}

} // verus!
