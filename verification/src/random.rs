//! The source of random bytes.

use rand::rngs::ThreadRng;
use rand::Rng;
use vstd::prelude::*;

verus! {

/// The thread-local generator of the `rand` crate, carried as an opaque value.
#[verifier::external_type_specification]
#[verifier::external_body]
pub struct ExThreadRng(ThreadRng);

/// `rand::thread_rng`: a handle to the generator of the current thread.
/// Nothing is claimed of the handle. The call panics where the operating
/// system cannot seed the generator.
#[verifier::external_body]
pub(crate) fn thread_generator() -> (rng: ThreadRng) {
    rand::thread_rng()
}

/// `Rng::gen::<u8>` on the thread-local generator: a byte drawn uniformly.
/// Nothing is claimed of the byte, and two draws may differ. The generator
/// takes a fresh seed from the operating system now and then, and the call
/// panics where the operating system cannot give one.
#[verifier::external_body]
pub(crate) fn random_byte(rng: &mut ThreadRng) -> (byte: u8) {
    rng.gen::<u8>()
}

} // verus!
