//! Evolution of the parameters of small feed-forward networks.
//!
//! A population of individuals, each carrying a chromosome of real-valued
//! genes, is turned into the next generation by selection, crossover and
//! mutation. The same genes, read against a topology, are the biases and
//! weights of a layered network.
//!
//! The library never computes with the reals it carries. `R`, the type of
//! genes, weights and fitness values, is a parameter, and whatever adds,
//! multiplies, compares or draws reals is a function that the caller hands
//! in: the kernel of a neuron, the trial and the move of a mutation, the
//! wheel of a selection, the draw of a random parameter. The contracts say
//! what the library does with the values that these functions return, and in
//! which places it calls them.

pub mod chromosome;
pub mod crossover;
pub mod error;
pub mod evolution;
pub mod individual;
pub mod mutation;
pub mod network;
pub mod random;
pub mod selection;

pub use chromosome::Chromosome;
pub use crossover::{CrossoverMethod, UniformCrossover};
pub use error::Error;
pub use evolution::GeneticAlgorithm;
pub use individual::Individual;
pub use mutation::{GaussianMutation, MutationMethod};
pub use network::{count_parameters, Layer, LayerTopology, Network, Neuron};
pub use selection::{member_at, RouletteWheelSelection, SelectionMethod};
