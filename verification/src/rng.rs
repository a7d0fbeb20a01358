use vstd::prelude::*;

verus! {

#[verifier::external_type_specification]
#[verifier::external_body]
pub struct ExStdRng(rand::rngs::StdRng);

/// Relies on `rand::SeedableRng::from_entropy`: a fresh generator
/// seeded from the operating system.  Nothing is promised of what it
/// will produce.
#[verifier::external_body]
pub(crate) fn new_entropy_rng() -> rand::rngs::StdRng {
    rand::SeedableRng::from_entropy()
}

/// Relies on `rand::Rng::gen_range` over the non-empty inclusive range
/// 1..=6: the sample always lies within the bounds of the range.
#[verifier::external_body]
pub(crate) fn roll_die(rng: &mut rand::rngs::StdRng) -> (r: i8)
    ensures
        1 <= r <= 6,
{
    rand::Rng::gen_range(rng, 1i8..=6i8)
}

} // verus!
