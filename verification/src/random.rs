use vstd::prelude::*;
use rand::Rng;
use rand::rngs::StdRng;

verus! {

/// rand's seedable standard generator, carried through the generator as an
/// opaque value.
#[verifier::external_type_specification]
#[verifier::external_body]
pub struct ExStdRng(rand::rngs::StdRng);

/// A bool drawn by `gen_ratio`, kept with the chance it was drawn with. Only
/// `gen_ratio` makes one, so a value carried in it was drawn with that chance.
#[derive(Clone, Copy)]
pub struct RatioDraw {
    value: bool,
    numerator: u32,
    denominator: u32,
}

impl RatioDraw {
    /// The bool drawn.
    pub closed spec fn drawn(self) -> bool {
        self.value
    }

    /// The chance of `true` it was drawn with, as numerator and denominator.
    pub closed spec fn ratio(self) -> (u32, u32) {
        (self.numerator, self.denominator)
    }

    /// The bool drawn.
    pub fn value(&self) -> (r: bool)
        ensures
            r == self.drawn(),
    {
        self.value
    }
}

/// A value drawn by `gen_range_inclusive`, kept with the range it was drawn
/// from. Only `gen_range_inclusive` makes one, so a value carried in it was
/// drawn from that range.
#[derive(Clone, Copy)]
pub struct RangeDraw {
    value: u64,
    low: u64,
    high: u64,
}

impl RangeDraw {
    /// The value drawn.
    pub closed spec fn drawn(self) -> u64 {
        self.value
    }

    /// The range `low..=high` it was drawn from.
    pub closed spec fn range(self) -> (u64, u64) {
        (self.low, self.high)
    }

    /// The value drawn.
    pub fn value(&self) -> (r: u64)
        ensures
            r == self.drawn(),
    {
        self.value
    }
}

/// Draws a bool that is `true` with chance `numerator / denominator`, with
/// rand's `Rng::gen_ratio`, and returns it with that chance. rand panics
/// unless `0 < denominator` and `numerator <= denominator`, and documents
/// that `numerator == denominator` always gives `true` and `numerator == 0`
/// always gives `false`. Otherwise nothing is stated of the bool: it depends
/// on the generator's state.
#[verifier::external_body]
pub(crate) fn gen_ratio(rng: &mut StdRng, numerator: u32, denominator: u32) -> (b: RatioDraw)
    requires
        0 < denominator,
        numerator <= denominator,
    ensures
        b.ratio() == (numerator, denominator),
        numerator == denominator ==> b.drawn(),
        numerator == 0 ==> !b.drawn(),
{
    RatioDraw { value: rng.gen_ratio(numerator, denominator), numerator, denominator }
}

/// Draws a value from the inclusive range `low..=high` with rand's
/// `Rng::gen_range`, and returns it with that range. rand panics on an empty
/// range; the value drawn always lies within the range.
#[verifier::external_body]
pub(crate) fn gen_range_inclusive(rng: &mut StdRng, low: u64, high: u64) -> (r: RangeDraw)
    requires
        low <= high,
    ensures
        r.range() == (low, high),
        low <= r.drawn() <= high,
{
    RangeDraw { value: rng.gen_range(low..=high), low, high }
}

} // verus!
