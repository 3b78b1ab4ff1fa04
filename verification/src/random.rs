//! The source of random bytes.

use vstd::prelude::*;
use rand::Rng;

verus! {

/// One byte from the thread-local generator of the `rand` crate, drawn with
/// `Rng::gen_range` over the half-open range `0..255`. Nothing is claimed of
/// the byte beyond what that range gives: it is below 255. Two draws need
/// not agree.
#[verifier::external_body]
pub(crate) fn random_byte() -> (byte: u8)
    ensures
        byte < 255,
{
    rand::thread_rng().gen_range(0..255)
}

} // verus!
