//! Random sampling through the `rand` crate. Nothing can be promised of
//! which value comes back, only of its range, so callers get exactly that.

use vstd::prelude::*;
use rand::Rng;

verus! {

/// Relies on `rand::Rng::gen_range` over `rand::thread_rng`: sampling an
/// inclusive range panics only when the range is empty and otherwise returns
/// a value inside it. Which value comes back is not a function of the
/// arguments, so nothing more is stated.
#[verifier::external_body]
fn sample_inclusive(lo: u32, hi: u32) -> (r: u32)
    requires
        lo <= hi,
    ensures
        lo <= r <= hi,
{
    rand::thread_rng().gen_range(lo..=hi)
}

/// A uniformly sampled value between `lo` and `hi`, both inclusive.
pub fn random_in_range(lo: u32, hi: u32) -> (r: u32)
    requires
        lo <= hi,
    ensures
        lo <= r <= hi,
{
    sample_inclusive(lo, hi)
}

} // verus!
