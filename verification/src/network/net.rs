use crate::chromosome::Chromosome;
use crate::error::Error;
use crate::network::genes::{
    lemma_fits_chained, lemma_network_genes_injective, lemma_network_genes_len,
    lemma_parameter_count_prefix, lemma_parameter_count_step, network_genes, parameter_count,
};
use crate::network::layer::Layer;
use crate::network::model::{
    layer_accepts, layer_uniform, network_chained, network_fits, widths, LayerTopology,
    NetworkModel,
};
use crate::network::genes::layer_genes;
use crate::network::neuron::{draw_ready, drawn, lemma_draws_append, neuron_drawn, Neuron};
use rand_chacha::ChaCha8Rng;
use vstd::prelude::*;

verus! {

/// A feed-forward network: layers in which every neuron takes the outputs of
/// all neurons of the layer before it.
#[derive(Debug)]
pub struct Network<R> {
    layers: Vec<Layer<R>>,
}

impl<R> View for Network<R> {
    type V = Seq<Layer<R>>;

    closed spec fn view(&self) -> Seq<Layer<R>> {
        self.layers@
    }
}

/// What the given layers are made of.
pub open spec fn layer_models<R>(layers: Seq<Layer<R>>) -> NetworkModel<R> {
    Seq::new(layers.len(), |i: int| layers[i].model())
}

/// Every layer after the first takes as many inputs as the layer before it
/// has neurons.
pub open spec fn layers_linked<R>(layers: Seq<Layer<R>>) -> bool {
    forall|i: int|
        1 <= i < layers.len() ==> layer_accepts(
            (#[trigger] layers[i]).model(),
            layers[i - 1]@.len() as int,
        )
}

/// `outputs` is what may leave the last of `layers` when `inputs` enters the
/// first: every layer hands its outputs on as the inputs of the next, and
/// without layers the inputs leave as they came.
pub open spec fn flows<R, F: Fn(&Neuron<R>, &[R]) -> R>(
    layers: Seq<Layer<R>>,
    inputs: Seq<R>,
    outputs: Seq<R>,
    kernel: F,
) -> bool
    decreases layers.len(),
{
    if layers.len() == 0 {
        outputs == inputs
    } else {
        exists|signal: &[R]|
            flows(layers.drop_last(), inputs, signal@, kernel) && #[trigger] layers.last().fires(
                signal,
                outputs,
                kernel,
            )
    }
}

impl<R> Network<R> {
    /// What this network is made of.
    pub open spec fn model(&self) -> NetworkModel<R> {
        layer_models(self@)
    }

    #[verifier::type_invariant]
    spec fn chained(self) -> bool {
        network_chained(self.model())
    }

    /// `kernel` may be called on every neuron of this network, together with
    /// any input that has one entry per weight of that neuron.
    pub open spec fn runs<F: Fn(&Neuron<R>, &[R]) -> R>(&self, kernel: F) -> bool {
        forall|i: int, inputs: &[R]|
            0 <= i < self@.len() ==> #[trigger] self@[i].takes(kernel, inputs)
    }

    /// The network of the given layers.
    ///
    /// A layer whose neurons do not take one input per neuron of the layer
    /// before it is refused with `Error::LengthMismatch`.
    pub fn new(layers: Vec<Layer<R>>) -> (network: Result<Self, Error>)
        ensures
            network is Ok <==> layers_linked(layers@),
            network matches Ok(built) ==> built@ == layers@,
            network matches Err(e) ==> e == Error::LengthMismatch,
    {
        let ghost models = layer_models(layers@);
        let mut i: usize = 0;
        while i < layers.len()
            invariant
                i <= layers@.len(),
                models == layer_models(layers@),
                forall|k: int| 0 <= k < i ==> layer_uniform(#[trigger] models[k]),
                forall|k: int|
                    1 <= k < i ==> layer_accepts(
                        (#[trigger] layers@[k]).model(),
                        layers@[k - 1]@.len() as int,
                    ),
            decreases layers@.len() - i,
        {
            let layer = &layers[i];
            proof {
                use_type_invariant(layer);
            }
            if i > 0 && !layer.accepts(layers[i - 1].neurons().len()) {
                return Err(Error::LengthMismatch);
            }
            i += 1;
        }
        assert forall|k: int| 1 <= k < models.len() implies layer_accepts(
            #[trigger] models[k],
            models[k - 1].len() as int,
        ) by {
        }
        Ok(Network { layers })
    }

    /// The layers, in order.
    pub fn layers(&self) -> (layers: &[Layer<R>])
        ensures
            layers@ == self@,
    {
        self.layers.as_slice()
    }

    /// The outputs of the last layer when `inputs` is fed to the first and
    /// every layer's outputs are fed to the next, each neuron's output
    /// computed by `kernel`. A network without layers hands the inputs back.
    ///
    /// Fails with `Error::LengthMismatch` if the first layer has a neuron
    /// that has not one weight per input.
    pub fn propagate<F: Fn(&Neuron<R>, &[R]) -> R>(
        &self,
        inputs: Vec<R>,
        kernel: &F,
    ) -> (outputs: Result<Vec<R>, Error>)
        requires
            self.runs(*kernel),
        ensures
            outputs is Ok <==> (self@.len() > 0 ==> layer_accepts(
                self@[0].model(),
                inputs@.len() as int,
            )),
            outputs matches Ok(values) ==> flows(self@, inputs@, values@, *kernel),
            outputs matches Err(e) ==> e == Error::LengthMismatch,
    {
        proof {
            use_type_invariant(self);
        }
        let ghost entry = inputs@;
        let ghost models = self.model();
        let mut signal = inputs;
        let mut i: usize = 0;
        while i < self.layers.len()
            invariant
                i <= self@.len(),
                self@ == self.layers@,
                entry == inputs@,
                models == self.model(),
                network_chained(models),
                self.runs(*kernel),
                flows(self@.take(i as int), entry, signal@, *kernel),
                i == 0 ==> signal@ == entry,
                i > 0 ==> signal@.len() == self@[i - 1]@.len(),
                i > 0 ==> layer_accepts(self@[0].model(), entry.len() as int),
            decreases self@.len() - i,
        {
            let fed = signal.as_slice();
            let ghost before = self@.take(i as int);
            let ghost after = self@.take(i + 1);
            match self.layers[i].propagate(fed, kernel) {
                Ok(values) => {
                    proof {
                        assert(after.drop_last() =~= before);
                        assert(after.last().fires(fed, values@, *kernel));
                    }
                    signal = values;
                },
                Err(e) => {
                    proof {
                        if i > 0 {
                            assert(layer_accepts(models[i as int], models[i - 1].len() as int));
                        }
                    }
                    return Err(e);
                },
            }
            i += 1;
        }
        assert(self@.take(i as int) =~= self@);
        Ok(signal)
    }
}

/// The number of genes that a network of the given topology takes, or
/// `None` if that number is too large for a `usize`.
pub fn count_parameters(topology: &[LayerTopology]) -> (count: Option<usize>)
    ensures
        count matches Some(c) ==> c == parameter_count(widths(topology@)),
        count is None <==> parameter_count(widths(topology@)) > usize::MAX,
{
    let ghost w = widths(topology@);
    let len = topology.len();
    if len < 2 {
        return Some(0);
    }
    let mut total: usize = 0;
    let mut i: usize = 1;
    while i < len
        invariant
            1 <= i <= len,
            len == topology@.len(),
            w == widths(topology@),
            total == parameter_count(w.take(i as int)),
        decreases len - i,
    {
        let inputs: u128 = topology[i - 1].neurons as u128;
        let neurons: u128 = topology[i].neurons as u128;
        assert(neurons * (inputs + 1) <= 0xffff_ffff_ffff_ffff * 0x1_0000_0000_0000_0000)
            by (nonlinear_arith)
            requires
                0 <= neurons <= 0xffff_ffff_ffff_ffff,
                0 <= inputs + 1 <= 0x1_0000_0000_0000_0000,
        ;
        let grown: u128 = total as u128 + neurons * (inputs + 1);
        proof {
            lemma_parameter_count_step(w, i - 1);
        }
        if grown > usize::MAX as u128 {
            proof {
                lemma_parameter_count_prefix(w, i + 1);
            }
            return None;
        }
        total = grown as usize;
        i += 1;
    }
    assert(w.take(i as int) =~= w);
    Some(total)
}

impl<R: Copy> Network<R> {
    /// The genome that stands for this network: the genes of its layers, one
    /// layer after the other; in a layer one neuron after the other; of a
    /// neuron first the bias, then the weights.
    pub fn encode(&self) -> (genome: Chromosome<R>)
        ensures
            genome@ == network_genes(self.model()),
    {
        let ghost models = self.model();
        let mut genes: Vec<R> = Vec::new();
        let mut i: usize = 0;
        while i < self.layers.len()
            invariant
                i <= self@.len(),
                self@ == self.layers@,
                models == self.model(),
                genes@ == network_genes(models.take(i as int)),
            decreases self@.len() - i,
        {
            self.layers[i].write_genes(&mut genes);
            proof {
                let grown = models.take(i + 1);
                assert(grown.drop_last() =~= models.take(i as int));
            }
            i += 1;
        }
        assert(models.take(i as int) =~= models);
        Chromosome::from_vec(genes)
    }

    /// The network of the given topology that `genome` stands for.
    ///
    /// A topology of fewer than two widths is refused with
    /// `Error::InvalidTopology`, and a genome that has not exactly one gene
    /// per parameter of the topology with `Error::LengthMismatch`. Layer `i`
    /// of the network has as many neurons as width `i + 1` says, each with as
    /// many weights as width `i` says, and encoding the network gives the
    /// genome back. No other network of that topology has these genes, so
    /// decoding what a network was encoded to gives that network back.
    pub fn decode(topology: &[LayerTopology], genome: &Chromosome<R>) -> (network: Result<
        Self,
        Error,
    >)
        ensures
            network is Ok <==> topology@.len() >= 2 && genome@.len() == parameter_count(
                widths(topology@),
            ),
            network matches Ok(built) ==> network_fits(built.model(), widths(topology@))
                && network_genes(built.model()) == genome@,
            network matches Ok(built) ==> forall|other: NetworkModel<R>|
                network_fits(other, widths(topology@)) && #[trigger] network_genes(other)
                    == genome@ ==> other == built.model(),
            network matches Err(e) ==> e == (if topology@.len() < 2 {
                Error::InvalidTopology
            } else {
                Error::LengthMismatch
            }),
    {
        let ghost w = widths(topology@);
        let len = topology.len();
        if len < 2 {
            return Err(Error::InvalidTopology);
        }
        let have = genome.len();
        match count_parameters(topology) {
            Some(count) => {
                if count != have {
                    return Err(Error::LengthMismatch);
                }
            },
            None => {
                return Err(Error::LengthMismatch);
            },
        }
        let genes = genome.as_slice();
        let mut layers: Vec<Layer<R>> = Vec::new();
        let mut cursor: usize = 0;
        let mut i: usize = 0;
        while i + 1 < len
            invariant
                i + 1 <= len,
                len == topology@.len(),
                w == widths(topology@),
                genes@.len() == parameter_count(w),
                layers@.len() == i,
                cursor == parameter_count(w.take(i + 1)),
                cursor <= genes@.len(),
                network_fits(layer_models(layers@), w.take(i + 1)),
                network_genes(layer_models(layers@)) == genes@.subrange(0, cursor as int),
            decreases len - i,
        {
            let ghost models = layer_models(layers@);
            proof {
                lemma_parameter_count_step(w, i as int);
                lemma_parameter_count_prefix(w, i + 1);
                lemma_parameter_count_prefix(w, i + 2);
            }
            let (layer, next) = Layer::read_genes(
                genes,
                cursor,
                topology[i].neurons,
                topology[i + 1].neurons,
            );
            let ghost grown = layer_models(layers@.push(layer));
            proof {
                assert(grown.drop_last() =~= models);
                let wider = w.take(i + 2);
                assert forall|k: int| 0 <= k < grown.len() implies (#[trigger] grown[k]).len()
                    == wider[k + 1] && layer_accepts(grown[k], wider[k]) by {
                    if k < i {
                        assert(models[k].len() == w.take(i + 1)[k + 1]);
                    }
                }
            }
            layers.push(layer);
            cursor = next;
            i += 1;
        }
        proof {
            lemma_fits_chained(layer_models(layers@), w);
            lemma_network_genes_len(layer_models(layers@), w);
            assert(genes@.subrange(0, cursor as int) =~= genes@);
        }
        let built = Network { layers };
        assert forall|other: NetworkModel<R>|
            network_fits(other, w) && #[trigger] network_genes(other) == genome@ implies other
            == built.model() by {
            lemma_network_genes_injective(other, built.model(), w);
        }
        Ok(built)
    }
}

impl<R> Network<R> {
    /// A network of the given topology whose parameters are drawn by `draw`:
    /// layer by layer, in a layer neuron by neuron, for a neuron first the
    /// bias and then the weights.
    ///
    /// A topology of fewer than two widths is refused with
    /// `Error::InvalidTopology` before anything is drawn. Layer `i` of the
    /// network has as many neurons as width `i + 1` says, each with as many
    /// weights as width `i` says. The genes of the network, in their order,
    /// are what `draw` returned call after call, each call finding the
    /// generator as the call before it left it.
    pub fn random<D: Fn(&mut ChaCha8Rng) -> R>(
        rng: &mut ChaCha8Rng,
        topology: &[LayerTopology],
        draw: &D,
    ) -> (network: Result<Self, Error>)
        requires
            draw_ready(*draw),
        ensures
            network is Ok <==> topology@.len() >= 2,
            network matches Err(e) ==> e == Error::InvalidTopology,
            network is Err ==> *final(rng) == *old(rng),
            network matches Ok(built) ==> network_fits(built.model(), widths(topology@)),
            network matches Ok(built) ==> forall|i: int, j: int|
                0 <= i < built.model().len() && 0 <= j < built.model()[i].len() ==> neuron_drawn(
                    *draw,
                    #[trigger] built.model()[i][j],
                ),
            network matches Ok(built) ==> exists|states: Seq<ChaCha8Rng>|
                {
                    &&& states.len() == network_genes(built.model()).len() + 1
                    &&& states[0] == *old(rng)
                    &&& states[network_genes(built.model()).len() as int] == *final(rng)
                    &&& forall|j: int|
                        0 <= j < network_genes(built.model()).len() ==> drawn(
                            *draw,
                            #[trigger] network_genes(built.model())[j],
                        ) && exists|r: &mut ChaCha8Rng|
                            {
                                &&& *r == states[j]
                                &&& #[trigger] call_ensures(
                                    *draw,
                                    (r,),
                                    network_genes(built.model())[j],
                                )
                                &&& *final(r) == states[j + 1]
                            }
                },
    {
        let ghost w = widths(topology@);
        let len = topology.len();
        if len < 2 {
            return Err(Error::InvalidTopology);
        }
        let mut layers: Vec<Layer<R>> = Vec::new();
        let mut i: usize = 0;
        proof {
            let start = seq![*rng];
            assert(start.len() == network_genes(layer_models(layers@)).len() + 1);
            assert(start[0] == *old(rng) && start[start.len() - 1] == *rng);
        }
        while i + 1 < len
            invariant
                i + 1 <= len,
                len == topology@.len(),
                w == widths(topology@),
                draw_ready(*draw),
                layers@.len() == i,
                network_fits(layer_models(layers@), w.take(i + 1)),
                forall|k: int, j: int|
                    0 <= k < i && 0 <= j < layer_models(layers@)[k].len() ==> neuron_drawn(
                        *draw,
                        #[trigger] layer_models(layers@)[k][j],
                    ),
                exists|states: Seq<ChaCha8Rng>|
                    {
                        &&& #[trigger] states.len() == network_genes(layer_models(layers@)).len() + 1
                        &&& states[0] == *old(rng)
                        &&& states[states.len() - 1] == *rng
                        &&& forall|j: int|
                            0 <= j < network_genes(layer_models(layers@)).len() ==> drawn(*draw, #[trigger] network_genes(layer_models(layers@))[j]) && exists|
                                r: &mut ChaCha8Rng,
                            |
                                {
                                    &&& *r == states[j]
                                    &&& #[trigger] call_ensures(*draw, (r,), network_genes(layer_models(layers@))[j])
                                    &&& *final(r) == states[j + 1]
                                }
                    },
            decreases len - i,
        {
            let ghost models = layer_models(layers@);
            let ghost before = *rng;
            let ghost so_far = network_genes(models);
            let layer = Layer::random(rng, topology[i].neurons, topology[i + 1].neurons, draw);
            let ghost grown = layer_models(layers@.push(layer));
            proof {
                let more = layer_genes(layer.model());
                let states = choose|states: Seq<ChaCha8Rng>|
                    {
                        &&& #[trigger] states.len() == so_far.len() + 1
                        &&& states[0] == *old(rng)
                        &&& states[states.len() - 1] == before
                        &&& forall|j: int|
                            0 <= j < so_far.len() ==> drawn(*draw, #[trigger] so_far[j]) && exists|
                                r: &mut ChaCha8Rng,
                            |
                                {
                                    &&& *r == states[j]
                                    &&& #[trigger] call_ensures(*draw, (r,), so_far[j])
                                    &&& *final(r) == states[j + 1]
                                }
                    };
                let run = choose|run: Seq<ChaCha8Rng>|
                    {
                        &&& #[trigger] run.len() == more.len() + 1
                        &&& run[0] == before
                        &&& run[run.len() - 1] == *rng
                        &&& forall|j: int|
                            0 <= j < more.len() ==> drawn(*draw, #[trigger] more[j]) && exists|
                                r: &mut ChaCha8Rng,
                            |
                                {
                                    &&& *r == run[j]
                                    &&& #[trigger] call_ensures(*draw, (r,), more[j])
                                    &&& *final(r) == run[j + 1]
                                }
                    };
                lemma_draws_append(*draw, states, so_far, run, more);
                let joined = states + run.skip(1);
                assert(grown.drop_last() =~= models);
                assert(network_genes(grown) =~= so_far + more);
                assert(joined.len() == network_genes(grown).len() + 1);
                assert(joined[0] == *old(rng) && joined[joined.len() - 1] == *rng);
            }
            proof {
                let wider = w.take(i + 2);
                assert forall|k: int| 0 <= k < grown.len() implies (#[trigger] grown[k]).len()
                    == wider[k + 1] && layer_accepts(grown[k], wider[k]) by {
                    if k < i {
                        assert(models[k].len() == w.take(i + 1)[k + 1]);
                    }
                }
                assert forall|k: int, j: int|
                    0 <= k < grown.len() && 0 <= j < grown[k].len() implies neuron_drawn(
                    *draw,
                    #[trigger] grown[k][j],
                ) by {
                    if k < i {
                        assert(neuron_drawn(*draw, models[k][j]));
                    }
                }
            }
            layers.push(layer);
            i += 1;
        }
        let ghost genes = network_genes(layer_models(layers@));
        let ghost after = *rng;
        proof {
            lemma_fits_chained(layer_models(layers@), w);
            assert(exists|states: Seq<ChaCha8Rng>|
                {
                    &&& #[trigger] states.len() == genes.len() + 1
                    &&& states[0] == *old(rng)
                    &&& states[states.len() - 1] == after
                    &&& forall|j: int|
                        0 <= j < genes.len() ==> drawn(*draw, #[trigger] genes[j]) && exists|
                            r: &mut ChaCha8Rng,
                        |
                            {
                                &&& *r == states[j]
                                &&& #[trigger] call_ensures(*draw, (r,), genes[j])
                                &&& *final(r) == states[j + 1]
                            }
                });
            let states = choose|states: Seq<ChaCha8Rng>|
                {
                    &&& #[trigger] states.len() == genes.len() + 1
                    &&& states[0] == *old(rng)
                    &&& states[states.len() - 1] == after
                    &&& forall|j: int|
                        0 <= j < genes.len() ==> drawn(*draw, #[trigger] genes[j]) && exists|
                            r: &mut ChaCha8Rng,
                        |
                            {
                                &&& *r == states[j]
                                &&& #[trigger] call_ensures(*draw, (r,), genes[j])
                                &&& *final(r) == states[j + 1]
                            }
                };
            // with a run in hand, the run that the contract asks for is found
            assert(states[0] == *old(rng));
        }
        Ok(Network { layers })
    }
}

} // verus!
