//! The machine's one source of chance: a pseudo-random byte drawn for
//! the random-mask instruction.
use vstd::prelude::*;

use rand::Rng;

verus! {

/// Relies on rand's thread-local generator and `Rng::gen_range` over
/// the half-open range 0..255: the draw is uniform over 0-254 and never
/// panics, since the range is non-empty.  Nothing else is assumed of
/// the value.
#[verifier::external_body]
pub(crate) fn random_byte() -> (r: u8)
    ensures
        r < 255,
{
    rand::thread_rng().gen_range(0..255u8)
}

} // verus!
