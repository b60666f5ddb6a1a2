use rand::seq::SliceRandom;
use rand::Rng;
use vstd::prelude::*;

verus! {

/// Relies on rand's `Rng::gen_range` with the thread-local generator: a value
/// drawn from `low..high`; the range must not be empty, else it panics.
#[verifier::external_body]
pub(crate) fn random_range(low: i128, high: i128) -> (r: i128)
    requires
        low < high,
    ensures
        low <= r < high,
{
    rand::thread_rng().gen_range(low..high)
}

/// Relies on rand's `SliceRandom::choose` with the thread-local generator: one
/// element of the slice, and `None` only when the slice is empty.
#[verifier::external_body]
pub(crate) fn choose_offset(offsets: &Vec<[i32; 2]>) -> (r: Option<[i32; 2]>)
    ensures
        offsets@.len() == 0 <==> r is None,
        r matches Some(o) ==> offsets@.contains(o),
{
    offsets.choose(&mut rand::thread_rng()).copied()
}

} // verus!
