use rand::Rng;
use vstd::prelude::*;

verus! {

/// Relies on rand::thread_rng and Rng::gen_range: a value drawn uniformly from
/// `0..n`. gen_range panics on an empty range, hence `n > 0`.
#[verifier::external_body]
pub(crate) fn random_below(n: usize) -> (r: usize)
    requires
        n > 0,
    ensures
        r < n,
{
    rand::thread_rng().gen_range(0..n)
}

} // verus!
