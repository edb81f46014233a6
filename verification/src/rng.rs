use vstd::prelude::*;

verus! {

/// Relies on rand::Rng::gen_range over rand::thread_rng: a draw from
/// the uniform distribution on the half-open range below `bound`. The
/// call panics only on an empty range, which the precondition rules
/// out; nothing is assumed beyond the bound, since the result is
/// random.
#[verifier::external_body]
pub(crate) fn random_below(bound: u64) -> (r: u64)
    requires
        bound > 0,
    ensures
        r < bound,
{
    rand::Rng::gen_range(&mut rand::thread_rng(), 0..bound)
}

} // verus!
