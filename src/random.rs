use rand::distributions::Uniform;
use rand::seq::IteratorRandom;
use rand::{thread_rng, Rng};
use vstd::prelude::*;

verus! {

/// Relies on `IteratorRandom::choose` over `str::chars`: it yields one of the
/// characters of `options`, and `None` only for an empty iterator.
#[verifier::external_body]
pub(crate) fn random_glyph(options: &str) -> (r: char)
    requires
        options@.len() > 0,
    ensures
        options@.contains(r),
{
    options.chars().choose(&mut thread_rng()).unwrap()
}

/// Relies on `IteratorRandom::choose_multiple` over `str::chars`: it yields
/// `amount` characters of `options`, or all of them where there are fewer.
#[verifier::external_body]
pub(crate) fn random_glyphs(options: &str, amount: usize) -> (r: Vec<char>)
    ensures
        r@.len() == if amount <= options@.len() { amount as int } else { options@.len() as int },
        forall|i: int| 0 <= i < r@.len() ==> options@.contains(#[trigger] r@[i]),
{
    options.chars().choose_multiple(&mut thread_rng(), amount)
}

/// Relies on `Rng::gen_ratio`: `true` with chance `numerator / denominator`,
/// never for a zero numerator, always when both are equal. It panics on a
/// zero denominator or a numerator above it.
#[verifier::external_body]
pub(crate) fn random_ratio(numerator: u32, denominator: u32) -> (r: bool)
    requires
        0 < denominator,
        numerator <= denominator,
    ensures
        numerator == 0 ==> !r,
        numerator == denominator ==> r,
{
    thread_rng().gen_ratio(numerator, denominator)
}

/// Relies on `Uniform::new` sampled through `Rng::sample`: a value of the
/// half-open range `[low, high)`. `Uniform::new` panics unless `low < high`.
#[verifier::external_body]
pub(crate) fn random_below(low: u32, high: u32) -> (r: u32)
    requires
        low < high,
    ensures
        low <= r < high,
{
    thread_rng().sample(Uniform::new(low, high))
}

} // verus!
