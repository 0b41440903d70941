//! How many sides a randomly shaped body gets.

use vstd::prelude::*;

verus! {

/// The fewest sides a polygon is drawn with.
pub const MIN_SIDES: usize = 3;

/// How many different numbers of sides are drawn.
pub const SIDE_CHOICES: usize = 10;

/// The number of sides that a sample stands for.
pub open spec fn sides_of(sample: usize) -> int {
    sample as int % 10 + 3
}

/// Maps a sample to a number of sides, from three to twelve.
pub fn sides_from_sample(sample: usize) -> (sides: usize)
    ensures
        sides == sides_of(sample),
        MIN_SIDES <= sides < MIN_SIDES + SIDE_CHOICES,
{
    sample % SIDE_CHOICES + MIN_SIDES
}

/// Draws a word from the thread-local generator of the `rand` crate, by
/// `rand::random`. Nothing is claimed of the word: it differs from call to
/// call.
#[verifier::external_body]
fn random_sample() -> (sample: usize) {
    rand::random::<usize>()
}

/// Draws the number of sides of a random regular polygon. Whatever the
/// generator gives, a polygon with that many sides can be drawn.
pub fn random_sides() -> (sides: usize)
    ensures
        MIN_SIDES <= sides < MIN_SIDES + SIDE_CHOICES,
{
    sides_from_sample(random_sample())
}

} // verus!
