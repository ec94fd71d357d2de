use vstd::prelude::*;

use rand::{Rng, RngCore};

verus! {

/// Relies on rand's `thread_rng().gen_range(low..=high)`: a value drawn from
/// the inclusive range, which must not be empty.
#[verifier::external_body]
pub(crate) fn random_in_range(low: usize, high: usize) -> (r: usize)
    requires
        low <= high,
    ensures
        low <= r <= high,
{
    rand::thread_rng().gen_range(low..=high)
}

/// Relies on rand's `thread_rng().fill_bytes`: overwrites every byte of `buf`
/// with random ones, leaving its length as it was.
#[verifier::external_body]
pub(crate) fn fill_random(buf: &mut Vec<u8>)
    ensures
        final(buf)@.len() == old(buf)@.len(),
{
    rand::thread_rng().fill_bytes(buf.as_mut_slice())
}

} // verus!
