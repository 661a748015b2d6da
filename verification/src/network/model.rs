use vstd::prelude::*;

verus! {

/// The width of one layer of a topology: the number of its neurons, or, for
/// the first entry, of the raw inputs.
#[derive(Clone, Copy, Debug)]
pub struct LayerTopology {
    pub neurons: usize,
}

/// What a neuron is made of: one bias and one weight per input.
#[verifier::ext_equal]
pub struct NeuronModel<R> {
    pub bias: R,
    pub weights: Seq<R>,
}

/// What a layer is made of: its neurons, in order.
pub type LayerModel<R> = Seq<NeuronModel<R>>;

/// What a network is made of: its layers, in order.
pub type NetworkModel<R> = Seq<Seq<NeuronModel<R>>>;

/// The widths that a topology lists.
pub open spec fn widths(topology: Seq<LayerTopology>) -> Seq<int> {
    Seq::new(topology.len(), |i: int| topology[i].neurons as int)
}

/// Every neuron of `layer` has `width` weights.
pub open spec fn layer_accepts<R>(layer: LayerModel<R>, width: int) -> bool {
    forall|j: int| 0 <= j < layer.len() ==> (#[trigger] layer[j]).weights.len() == width
}

/// All neurons of `layer` have the same number of weights.
pub open spec fn layer_uniform<R>(layer: LayerModel<R>) -> bool {
    forall|j: int, k: int|
        0 <= j < layer.len() && 0 <= k < layer.len() ==> (#[trigger] layer[j]).weights.len() == (
        #[trigger] layer[k]).weights.len()
}

/// Every layer is uniform, and every layer after the first takes as many
/// inputs as the layer before it has neurons.
pub open spec fn network_chained<R>(network: NetworkModel<R>) -> bool {
    &&& forall|i: int| 0 <= i < network.len() ==> layer_uniform(#[trigger] network[i])
    &&& forall|i: int|
        1 <= i < network.len() ==> layer_accepts(#[trigger] network[i], network[i - 1].len() as int)
}

/// `network` has the shape that `widths` describes: one layer per pair of
/// neighbouring widths, with as many neurons as the second of the pair says
/// and as many weights in each neuron as the first says.
pub open spec fn network_fits<R>(network: NetworkModel<R>, widths: Seq<int>) -> bool {
    &&& widths.len() == network.len() + 1
    &&& forall|i: int| 0 <= i < network.len() ==> (#[trigger] network[i]).len() == widths[i + 1]
    &&& forall|i: int| 0 <= i < network.len() ==> layer_accepts(#[trigger] network[i], widths[i])
}

} // verus!
