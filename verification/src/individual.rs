use crate::chromosome::Chromosome;
use vstd::prelude::*;

verus! {

/// What a domain object has to offer to take part in evolution.
///
/// An individual owns exactly one chromosome, reports how fit it is, and can
/// be built from a chromosome alone. `R` is the type of its genes and of its
/// fitness, which selection expects not to be negative.
pub trait Individual<R>: Sized {
    /// How well this individual did.
    fn fitness(&self) -> R;

    /// The genome of this individual.
    fn chromosome(&self) -> &Chromosome<R>;

    /// The individual that carries `chromosome`.
    fn create(chromosome: Chromosome<R>) -> Self;
}

} // verus!
