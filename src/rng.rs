//! The random draws that level generation makes, through rand's `StdRng`.
use vstd::prelude::*;
use rand::rngs::StdRng;

verus! {

#[verifier::external_type_specification]
#[verifier::external_body]
pub struct ExStdRng(rand::rngs::StdRng);

/// Relies on rand's `Rng::gen_ratio`: `true` with chance
/// `numerator / denominator`, never for a zero numerator and always when the
/// two are equal. It panics on a zero denominator or a numerator above it.
#[verifier::external_body]
pub(crate) fn gen_ratio(rng: &mut StdRng, numerator: u32, denominator: u32) -> (r: bool)
    requires
        0 < denominator,
        numerator <= denominator,
    ensures
        numerator == 0 ==> !r,
        numerator == denominator ==> r,
{
    rand::Rng::gen_ratio(rng, numerator, denominator)
}

/// Relies on rand's `Rng::gen_range` over `low..=high`: a value in the
/// range. It panics on an empty range.
#[verifier::external_body]
pub(crate) fn gen_range_inclusive(rng: &mut StdRng, low: u32, high: u32) -> (r: u32)
    requires
        low <= high,
    ensures
        low <= r <= high,
{
    rand::Rng::gen_range(rng, low..=high)
}

/// Relies on rand's `SliceRandom::choose`: `None` for an empty slice, else a
/// reference to one of its elements.
#[verifier::external_body]
pub(crate) fn choose_one<'a>(rng: &mut StdRng, items: &'a Vec<String>) -> (r: Option<&'a String>)
    ensures
        r is None <==> items@.len() == 0,
        r matches Some(s) ==> exists|i: int| 0 <= i < items@.len() && s@ == #[trigger] items@[i]@,
{
    rand::seq::SliceRandom::choose(items.as_slice(), rng)
}

/// Relies on rand's `SliceRandom::shuffle`: the elements are permuted in
/// place (a Fisher-Yates shuffle of swaps).
#[verifier::external_body]
pub(crate) fn shuffle(rng: &mut StdRng, items: &mut Vec<(i32, i32)>)
    ensures
        final(items)@.len() == old(items)@.len(),
        final(items)@.to_multiset() == old(items)@.to_multiset(),
{
    rand::seq::SliceRandom::shuffle(items.as_mut_slice(), rng)
}

} // verus!
