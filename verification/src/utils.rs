//! Chance: the draws that the rules are played with.

use rand::seq::SliceRandom;
use rand::Rng;
use vstd::prelude::*;

verus! {

/// A roll is an integer in `[0, ROLL_SCALE)`. It stands for the fraction
/// `roll / ROLL_SCALE` of the unit interval, so chances are given in
/// millionths.
pub const ROLL_SCALE: i64 = 1_000_000;

/// `roll` is a possible outcome of a roll.
pub open spec fn is_roll(roll: int) -> bool {
    0 <= roll < ROLL_SCALE
}

/// Calls `gen_range` of `rand`, on the thread's generator, with the
/// half-open range from `low` to `high`. The range must not be empty, as
/// `gen_range` panics on an empty one. The outcome lies in the range;
/// nothing else is known of it.
#[verifier::external_body]
pub(crate) fn uniform_draw(low: i64, high: i64) -> (r: i64)
    requires
        low < high,
    ensures
        low <= r < high,
{
    rand::thread_rng().gen_range(low..high)
}

/// Calls `choose` of `rand`'s `SliceRandom`, on the thread's generator. An
/// empty list gives nothing; otherwise the outcome is one of the entries,
/// and nothing else is known of it.
#[verifier::external_body]
pub(crate) fn pick<'a>(names: &Vec<&'a str>) -> (r: Option<&'a str>)
    ensures
        names@.len() == 0 ==> r is None,
        names@.len() > 0 ==> r is Some && names@.contains(r->0),
{
    names.choose(&mut rand::thread_rng()).copied()
}

/// A fresh roll.
pub fn roll() -> (r: i64)
    ensures
        is_roll(r as int),
{
    uniform_draw(0, ROLL_SCALE)
}

/// Whether a roll passes a check. `chance` is the share of rolls, in
/// millionths, that do NOT pass: a roll passes when it is above `chance`.
pub open spec fn passes(roll: int, chance: int) -> bool {
    roll > chance
}

/// Decides the check for a roll already made: it passes when the roll is
/// above `chance`.
pub fn encounter_succeeds(roll: i64, chance: i64) -> (r: bool)
    ensures
        r == passes(roll as int, chance as int),
{
    roll > chance
}

/// Rolls and decides the check. `chance` is the share of failures, in
/// millionths, so the check passes with probability
/// `1 - chance / ROLL_SCALE` (up to one millionth).
pub fn roll_encounter(chance: i64) -> (r: bool)
    ensures
        exists|roll: int| is_roll(roll) && r == passes(roll, chance as int),
        chance < 0 ==> r,
        chance >= ROLL_SCALE - 1 ==> !r,
{
    let drawn = roll();
    let r = encounter_succeeds(drawn, chance);
    proof {
        assert(is_roll(drawn as int) && r == passes(drawn as int, chance as int));
    }
    r
}

} // verus!
