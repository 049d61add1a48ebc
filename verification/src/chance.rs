//! What is left to chance.
use vstd::prelude::*;

verus! {

/// fastrand's `choice` among the numbers below `count`. Claimed: it gives one of
/// them, and gives nothing only where there is none.
#[verifier::external_body]
pub(crate) fn choice_below(count: usize) -> (r: Option<usize>)
    ensures
        r.is_none() == (count == 0),
        r.is_some() ==> r.unwrap() < count,
{
    fastrand::choice(0..count)
}

} // verus!
