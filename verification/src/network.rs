pub mod genes;
pub mod layer;
pub mod model;
pub mod net;
pub mod neuron;

pub use layer::Layer;
pub use model::LayerTopology;
pub use net::{count_parameters, Network};
pub use neuron::Neuron;
