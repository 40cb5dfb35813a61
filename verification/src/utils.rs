//! Random identifier material.

use vstd::prelude::*;

verus! {

/// An ASCII letter or digit.
pub open spec fn is_alphanumeric_char(c: char) -> bool {
    ||| 48 <= c as u32 <= 57
    ||| 65 <= c as u32 <= 90
    ||| 97 <= c as u32 <= 122
}

/// Relies on rand's `Alphanumeric` distribution, sampled from the thread
/// generator: exactly `length` values are drawn, each an ASCII letter or
/// digit. The drawn values themselves are random; nothing more holds of
/// them.
#[verifier::external_body]
pub fn generate_random_string(length: u8) -> (r: String)
    ensures
        r@.len() == length as nat,
        forall|i: int| 0 <= i < r@.len() ==> is_alphanumeric_char(#[trigger] r@[i]),
{
    rand::distr::SampleString::sample_string(
        &rand::distr::Alphanumeric,
        &mut rand::rng(),
        length as usize,
    )
}

} // verus!
