use vstd::prelude::*;
use rand::rngs::ThreadRng;
use rand::Rng;

verus! {

/// `rand::rngs::ThreadRng`, carried through opaquely.
#[verifier::external_type_specification]
#[verifier::external_body]
pub struct ExThreadRng(ThreadRng);

/// Calls `rand::thread_rng`, which hands out the thread-local generator.
/// Nothing is claimed of the handle.
#[verifier::external_body]
pub(crate) fn thread_rng() -> ThreadRng {
    rand::thread_rng()
}

/// Calls `Rng::gen_range` on the half-open range `low..high`. The claim is the one
/// rand documents: the value lies in `low..high`. rand panics on an empty range,
/// which `requires` rules out. Which value comes back is chance and is not stated.
#[verifier::external_body]
pub(crate) fn gen_range_u8(rng: &mut ThreadRng, low: u8, high: u8) -> (v: u8)
    requires
        low < high,
    ensures
        low <= v < high,
{
    rng.gen_range(low..high)
}

} // verus!
