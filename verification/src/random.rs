use vstd::prelude::*;

verus! {

/// `rand`'s standard generator, carried opaquely: the core draws from it
/// but never inspects its state.
#[verifier::external_type_specification]
#[verifier::external_body]
pub struct ExStdRng(rand::rngs::StdRng);

/// Relies on `rand::RngExt::random_ratio`: a fair coin flip (probability
/// 1/2), advancing the generator. Nothing is promised of the outcome.
#[verifier::external_body]
pub(crate) fn coin_flip(rng: &mut rand::rngs::StdRng) -> bool {
    rand::RngExt::random_ratio(rng, 1, 2)
}

} // verus!
