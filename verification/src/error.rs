use vstd::prelude::*;

verus! {

/// Why an operation of this library refused its input.
///
/// Every variant reports a broken precondition: nothing is retried and
/// nothing is partially done when one of them is returned.
#[derive(Clone, Copy, Debug, PartialEq, Eq, Structural)]
pub enum Error {
    /// Two sequences that have to agree in length do not: the parents of a
    /// crossover, a genome and the parameter count of a topology, or the
    /// input of a neuron and its weights.
    LengthMismatch,
    /// Selection or evolution was asked to work on an empty population.
    EmptyPopulation,
    /// An operator was configured with a value outside its domain.
    InvalidParameter,
    /// A topology has fewer than two entries.
    InvalidTopology,
    /// Selection found no individual with a positive fitness.
    DegenerateWeights,
}

} // verus!
