//! The source of the random draws that drive a walk.

use crate::walk::Draw;
use rand::rngs::StdRng;
use rand::Rng;
use vstd::prelude::*;

verus! {

/// `rand::rngs::StdRng`: an owned, seedable generator, carried as it is.
#[verifier::external_type_specification]
#[verifier::external_body]
pub struct ExStdRng(rand::rngs::StdRng);

/// `rand::Rng::gen`, called twice on the generator: once for a full-width
/// unsigned value and once for a boolean, in that order. What comes out
/// depends on the seed and on all that was drawn before, so nothing is
/// claimed of either.
#[verifier::external_body]
pub(crate) fn next_draw(rng: &mut StdRng) -> (draw: Draw) {
    let raw: usize = rng.gen();
    let forward: bool = rng.gen();
    Draw { raw, forward }
}

} // verus!
