use rand::rngs::StdRng;
use rand::Rng;
use vstd::prelude::*;

verus! {

/// The standard generator of rand, `rand::rngs::StdRng`. It is handed on to
/// the two functions below and nothing is said of what it holds.
#[verifier::external_type_specification]
#[verifier::external_body]
pub struct ExStdRng(StdRng);

/// One call of `Rng::gen_range` of rand on the half-open range from `low` to
/// `high`. The generator refuses an empty range; of a range that is not empty
/// it returns a member.
#[verifier::external_body]
pub(crate) fn draw_between(rng: &mut StdRng, low: u64, high: u64) -> (value: u64)
    requires
        low < high,
    ensures
        low <= value < high,
{
    rng.gen_range(low..high)
}

/// One call of `Rng::gen_ratio` of rand, which is true with the chance of
/// `numerator` in `denominator`. It refuses a denominator of zero and a
/// numerator above the denominator; it is surely true where the two are equal
/// and surely false where the numerator is zero.
#[verifier::external_body]
pub(crate) fn draw_ratio(rng: &mut StdRng, numerator: u32, denominator: u32) -> (hit: bool)
    requires
        0 < denominator,
        numerator <= denominator,
    ensures
        numerator == denominator ==> hit,
        numerator == 0 ==> !hit,
{
    rng.gen_ratio(numerator, denominator)
}

} // verus!
