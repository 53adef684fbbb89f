//! Randomness, drawn through the `rand` crate.
//!
//! The simulation treats random draws as opaque: nothing is assumed about
//! their distribution, only about their range, so every consumer is
//! verified for every value the range admits.

use vstd::prelude::*;

verus! {

/// Relies on rand::random_range over `lo..hi`: it returns a value of the
/// half-open range, and panics only when the range is empty, which the
/// precondition rules out.
#[verifier::external_body]
pub fn rand_range_i64(lo: i64, hi: i64) -> (r: i64)
    requires
        lo < hi,
    ensures
        lo <= r < hi,
{
    rand::random_range(lo..hi)
}

} // verus!
