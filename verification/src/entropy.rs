//! The source of random numbers: the thread-local generator of the `rand`
//! crate. Nothing here is proved; the contracts say what the crate
//! documents.

use rand::rngs::ThreadRng;
use rand::Rng;
use vstd::prelude::*;

verus! {

/// The handle that `rand::thread_rng` returns. Its contents are not visible
/// to the verifier.
#[verifier::external_type_specification]
#[verifier::external_body]
pub struct ExThreadRng(ThreadRng);

/// Calls `rand::thread_rng`: a handle to the generator of the calling
/// thread, which the first call on a thread seeds from the system. Nothing
/// is claimed of the handle. Where the system gives no seed the call
/// panics; no argument decides that, so no precondition can leave it out.
#[verifier::external_body]
pub(crate) fn thread_generator() -> (rng: ThreadRng) {
    rand::thread_rng()
}

/// Calls `Rng::gen_range` on the handle, for `i32`. The crate documents a
/// value in the half-open range from `low` to `high`, and a panic where
/// `low >= high`, which the precondition leaves out. Which value comes is
/// not stated: two calls on the same bounds may differ.
#[verifier::external_body]
pub(crate) fn draw_in_range(rng: &mut ThreadRng, low: i32, high: i32) -> (value: i32)
    requires
        low < high,
    ensures
        low <= value < high,
{
    rng.gen_range(low, high)
}

} // verus!
