//! The library's one source of randomness: a uniform draw below a bound.
//!
//! Everything that depends on chance — the heading of a fresh snake, the
//! cell a food item spawns at — takes the drawn number through here, and the
//! logic around it is verified for every value the draw can produce.

use rand::Rng;
use vstd::prelude::*;

use crate::direction::Direction;

verus! {

/// Relies on rand's `Rng::gen_range` over the range `0..n`: it returns a
/// value of that range, and panics only when the range is empty, which
/// `n >= 1` rules out. Nothing more is assumed of the draw.
#[verifier::external_body]
pub(crate) fn random_below(n: usize) -> (r: usize)
    requires
        n >= 1,
    ensures
        r < n,
{
    rand::thread_rng().gen_range(0..n)
}

/// Draws a heading at random; any of the four can come back.
pub fn random_direction() -> Direction {
    let k = random_below(4);
    if k == 0 {
        Direction::Left
    } else if k == 1 {
        Direction::Up
    } else if k == 2 {
        Direction::Right
    } else {
        Direction::Down
    }
}

} // verus!
