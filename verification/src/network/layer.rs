use crate::error::Error;
use crate::network::genes::{layer_genes, neuron_genes};
use crate::network::model::{layer_accepts, layer_uniform, LayerModel};
use crate::network::neuron::{
    draw_ready, drawn, kernel_takes, lemma_draws_append, neuron_drawn, Neuron,
};
use rand_chacha::ChaCha8Rng;
use vstd::prelude::*;

verus! {

/// One layer: neurons that all take the same number of inputs.
#[derive(Debug)]
pub struct Layer<R> {
    neurons: Vec<Neuron<R>>,
}

impl<R> View for Layer<R> {
    type V = Seq<Neuron<R>>;

    closed spec fn view(&self) -> Seq<Neuron<R>> {
        self.neurons@
    }
}

/// What the given neurons are made of.
pub open spec fn neuron_models<R>(neurons: Seq<Neuron<R>>) -> LayerModel<R> {
    Seq::new(neurons.len(), |j: int| neurons[j]@)
}

impl<R> Layer<R> {
    /// What this layer is made of.
    pub open spec fn model(&self) -> LayerModel<R> {
        neuron_models(self@)
    }

    /// Holds of every layer: its neurons agree in their number of weights.
    #[verifier::type_invariant]
    pub open spec fn uniform(self) -> bool {
        layer_uniform(self.model())
    }

    /// `kernel` may be called on every neuron of this layer that has one
    /// weight per entry of `inputs`, together with `inputs`.
    pub open spec fn takes<F: Fn(&Neuron<R>, &[R]) -> R>(&self, kernel: F, inputs: &[R]) -> bool {
        forall|j: int| 0 <= j < self@.len() ==> kernel_takes(kernel, &#[trigger] self@[j], inputs)
    }

    /// `outputs` holds, for every neuron of this layer and in their order,
    /// a value that `kernel` may return for that neuron on `inputs`.
    pub open spec fn fires<F: Fn(&Neuron<R>, &[R]) -> R>(
        &self,
        inputs: &[R],
        outputs: Seq<R>,
        kernel: F,
    ) -> bool {
        &&& outputs.len() == self@.len()
        &&& forall|j: int|
            0 <= j < self@.len() ==> call_ensures(kernel, (&self@[j], inputs), #[trigger] outputs[j])
    }

    /// The layer of the given neurons.
    ///
    /// Neurons that differ in their number of weights are refused with
    /// `Error::LengthMismatch`.
    pub fn new(neurons: Vec<Neuron<R>>) -> (layer: Result<Self, Error>)
        ensures
            layer is Ok <==> layer_uniform(neuron_models(neurons@)),
            layer matches Ok(built) ==> built@ == neurons@,
            layer matches Err(e) ==> e == Error::LengthMismatch,
    {
        let ghost models = neuron_models(neurons@);
        if neurons.len() > 0 {
            let width = neurons[0].weights().len();
            let mut j: usize = 1;
            while j < neurons.len()
                invariant
                    1 <= j <= neurons@.len(),
                    models == neuron_models(neurons@),
                    width == models[0].weights.len(),
                    forall|k: int| 0 <= k < j ==> (#[trigger] models[k]).weights.len() == width,
                decreases neurons@.len() - j,
            {
                if neurons[j].weights().len() != width {
                    assert(models[j as int].weights.len() != models[0].weights.len());
                    return Err(Error::LengthMismatch);
                }
                j += 1;
            }
        }
        Ok(Layer { neurons })
    }

    /// The neurons, in order.
    pub fn neurons(&self) -> (neurons: &[Neuron<R>])
        ensures
            neurons@ == self@,
    {
        self.neurons.as_slice()
    }

    /// The number of inputs that every neuron of this layer takes; `None`
    /// for a layer without neurons, which takes any.
    pub fn input_width(&self) -> (width: Option<usize>)
        ensures
            width is None <==> self@.len() == 0,
            width matches Some(w) ==> layer_accepts(self.model(), w as int),
    {
        proof {
            use_type_invariant(self);
        }
        if self.neurons.len() == 0 {
            None
        } else {
            let width = self.neurons[0].weights().len();
            assert(self.model()[0].weights.len() == width);
            Some(width)
        }
    }

    /// Whether every neuron of this layer takes `width` inputs.
    pub fn accepts(&self, width: usize) -> (yes: bool)
        ensures
            yes == layer_accepts(self.model(), width as int),
    {
        match self.input_width() {
            None => true,
            Some(own) => {
                assert(own != width ==> self.model()[0].weights.len() != width);
                own == width
            },
        }
    }

    /// The outputs of the neurons of this layer for `inputs`, in the order
    /// of the neurons, each computed by `kernel`.
    ///
    /// Fails with `Error::LengthMismatch` if some neuron has not one weight
    /// per input.
    pub fn propagate<F: Fn(&Neuron<R>, &[R]) -> R>(
        &self,
        inputs: &[R],
        kernel: &F,
    ) -> (outputs: Result<Vec<R>, Error>)
        requires
            self.takes(*kernel, inputs),
        ensures
            outputs is Ok <==> layer_accepts(self.model(), inputs@.len() as int),
            outputs matches Ok(values) ==> self.fires(inputs, values@, *kernel),
            outputs matches Err(e) ==> e == Error::LengthMismatch,
    {
        let ghost models = self.model();
        let mut values: Vec<R> = Vec::new();
        let mut j: usize = 0;
        while j < self.neurons.len()
            invariant
                j <= self@.len(),
                self@ == self.neurons@,
                models == self.model(),
                self.takes(*kernel, inputs),
                values@.len() == j,
                forall|k: int| 0 <= k < j ==> (#[trigger] models[k]).weights.len() == inputs@.len(),
                forall|k: int|
                    0 <= k < j ==> call_ensures(*kernel, (&self@[k], inputs), #[trigger] values@[k]),
            decreases self@.len() - j,
        {
            match self.neurons[j].propagate(inputs, kernel) {
                Ok(value) => {
                    values.push(value);
                },
                Err(e) => {
                    assert(models[j as int].weights.len() != inputs@.len());
                    return Err(e);
                },
            }
            j += 1;
        }
        Ok(values)
    }
}

impl<R: Copy> Layer<R> {
    /// Appends the genes of this layer to `genes`.
    pub(crate) fn write_genes(&self, genes: &mut Vec<R>)
        ensures
            final(genes)@ == old(genes)@ + layer_genes(self.model()),
    {
        let ghost before = genes@;
        let ghost models = self.model();
        let mut j: usize = 0;
        while j < self.neurons.len()
            invariant
                j <= self@.len(),
                self@ == self.neurons@,
                models == self.model(),
                genes@ == before + layer_genes(models.take(j as int)),
            decreases self@.len() - j,
        {
            self.neurons[j].write_genes(genes);
            proof {
                let grown = models.take(j + 1);
                assert(grown.drop_last() =~= models.take(j as int));
            }
            j += 1;
        }
        assert(models.take(j as int) =~= models);
    }

    /// The layer of `count` neurons with `width` weights each whose genes
    /// stand in `genes` from index `start` on, and the index behind them.
    pub(crate) fn read_genes(genes: &[R], start: usize, width: usize, count: usize) -> (read: (
        Self,
        usize,
    ))
        requires
            start + count * (width + 1) <= genes@.len(),
        ensures
            read.0@.len() == count,
            layer_accepts(read.0.model(), width as int),
            read.1 == start + count * (width + 1),
            layer_genes(read.0.model()) == genes@.subrange(start as int, read.1 as int),
    {
        let len = genes.len();
        let mut neurons: Vec<Neuron<R>> = Vec::new();
        let mut cursor: usize = start;
        let mut j: usize = 0;
        while j < count
            invariant
                j <= count,
                len == genes@.len(),
                start + count * (width + 1) <= len,
                cursor == start + j * (width + 1),
                start <= cursor <= len,
                neurons@.len() == j,
                layer_accepts(neuron_models(neurons@), width as int),
                layer_genes(neuron_models(neurons@)) == genes@.subrange(start as int, cursor as int),
            decreases count - j,
        {
            assert((j + 1) * (width + 1) <= count * (width + 1)) by (nonlinear_arith)
                requires
                    j + 1 <= count,
                    0 <= width,
            ;
            assert((j + 1) * (width + 1) == j * (width + 1) + (width + 1)) by (nonlinear_arith);
            let neuron = Neuron::read_genes(genes, cursor, width);
            let ghost grown = neuron_models(neurons@.push(neuron));
            proof {
                assert(grown.drop_last() =~= neuron_models(neurons@));
                assert forall|k: int| 0 <= k < grown.len() implies (#[trigger] grown[k]).weights.len()
                    == width by {
                    if k < j {
                        assert(grown[k] == neuron_models(neurons@)[k]);
                    }
                }
            }
            neurons.push(neuron);
            cursor = cursor + 1 + width;
            j += 1;
        }
        (Layer { neurons }, cursor)
    }
}

impl<R> Layer<R> {
    /// A layer of `output_size` neurons for `input_size` inputs each, whose
    /// parameters are drawn by `draw`, neuron by neuron.
    ///
    /// The genes of the layer, in their order, are what `draw` returned call
    /// after call, each call finding the generator as the call before it
    /// left it.
    pub fn random<D: Fn(&mut ChaCha8Rng) -> R>(
        rng: &mut ChaCha8Rng,
        input_size: usize,
        output_size: usize,
        draw: &D,
    ) -> (layer: Self)
        requires
            draw_ready(*draw),
        ensures
            layer@.len() == output_size,
            layer_accepts(layer.model(), input_size as int),
            forall|j: int| 0 <= j < output_size ==> neuron_drawn(*draw, #[trigger] layer.model()[j]),
            exists|states: Seq<ChaCha8Rng>|
                {
                    &&& states.len() == layer_genes(layer.model()).len() + 1
                    &&& states[0] == *old(rng)
                    &&& states[layer_genes(layer.model()).len() as int] == *final(rng)
                    &&& forall|j: int|
                        0 <= j < layer_genes(layer.model()).len() ==> drawn(
                            *draw,
                            #[trigger] layer_genes(layer.model())[j],
                        ) && exists|r: &mut ChaCha8Rng|
                            {
                                &&& *r == states[j]
                                &&& #[trigger] call_ensures(
                                    *draw,
                                    (r,),
                                    layer_genes(layer.model())[j],
                                )
                                &&& *final(r) == states[j + 1]
                            }
                },
    {
        let mut neurons: Vec<Neuron<R>> = Vec::new();
        let mut j: usize = 0;
        proof {
            let start = seq![*rng];
            assert(start.len() == layer_genes(neuron_models(neurons@)).len() + 1);
            assert(start[0] == *old(rng) && start[start.len() - 1] == *rng);
        }
        while j < output_size
            invariant
                j <= output_size,
                draw_ready(*draw),
                neurons@.len() == j,
                forall|k: int| 0 <= k < j ==> (#[trigger] neurons@[k])@.weights.len() == input_size,
                forall|k: int| 0 <= k < j ==> neuron_drawn(*draw, (#[trigger] neurons@[k])@),
                exists|states: Seq<ChaCha8Rng>|
                    {
                        &&& #[trigger] states.len() == layer_genes(neuron_models(neurons@)).len() + 1
                        &&& states[0] == *old(rng)
                        &&& states[states.len() - 1] == *rng
                        &&& forall|i: int|
                            0 <= i < layer_genes(neuron_models(neurons@)).len() ==> drawn(
                                *draw,
                                #[trigger] layer_genes(neuron_models(neurons@))[i],
                            ) && exists|r: &mut ChaCha8Rng|
                                {
                                    &&& *r == states[i]
                                    &&& #[trigger] call_ensures(
                                        *draw,
                                        (r,),
                                        layer_genes(neuron_models(neurons@))[i],
                                    )
                                    &&& *final(r) == states[i + 1]
                                }
                    },
            decreases output_size - j,
        {
            let ghost before = *rng;
            let ghost so_far = layer_genes(neuron_models(neurons@));
            let neuron = Neuron::random(rng, input_size, draw);
            proof {
                let states = choose|states: Seq<ChaCha8Rng>|
                    {
                        &&& #[trigger] states.len() == so_far.len() + 1
                        &&& states[0] == *old(rng)
                        &&& states[states.len() - 1] == before
                        &&& forall|i: int|
                            0 <= i < so_far.len() ==> drawn(*draw, #[trigger] so_far[i]) && exists|
                                r: &mut ChaCha8Rng,
                            |
                                {
                                    &&& *r == states[i]
                                    &&& #[trigger] call_ensures(*draw, (r,), so_far[i])
                                    &&& *final(r) == states[i + 1]
                                }
                    };
                let run = choose|run: Seq<ChaCha8Rng>|
                    {
                        &&& #[trigger] run.len() == input_size + 2
                        &&& run[0] == before
                        &&& run[input_size + 1] == *rng
                        &&& forall|i: int|
                            0 <= i <= input_size ==> drawn(
                                *draw,
                                #[trigger] neuron_genes(neuron@)[i],
                            ) && exists|r: &mut ChaCha8Rng|
                                {
                                    &&& *r == run[i]
                                    &&& #[trigger] call_ensures(
                                        *draw,
                                        (r,),
                                        neuron_genes(neuron@)[i],
                                    )
                                    &&& *final(r) == run[i + 1]
                                }
                    };
                lemma_draws_append(*draw, states, so_far, run, neuron_genes(neuron@));
                let joined = states + run.skip(1);
                let grown = neuron_models(neurons@.push(neuron));
                assert(grown.drop_last() =~= neuron_models(neurons@));
                assert(layer_genes(grown) =~= so_far + neuron_genes(neuron@));
                assert(joined.len() == layer_genes(grown).len() + 1);
                assert(joined[0] == *old(rng) && joined[joined.len() - 1] == *rng);
            }
            neurons.push(neuron);
            j += 1;
        }
        let ghost genes = layer_genes(neuron_models(neurons@));
        let ghost after = *rng;
        assert(exists|states: Seq<ChaCha8Rng>|
            {
                &&& #[trigger] states.len() == genes.len() + 1
                &&& states[0] == *old(rng)
                &&& states[states.len() - 1] == after
                &&& forall|i: int|
                    0 <= i < genes.len() ==> drawn(*draw, #[trigger] genes[i]) && exists|
                        r: &mut ChaCha8Rng,
                    |
                        {
                            &&& *r == states[i]
                            &&& #[trigger] call_ensures(*draw, (r,), genes[i])
                            &&& *final(r) == states[i + 1]
                        }
            });
        proof {
            let states = choose|states: Seq<ChaCha8Rng>|
                {
                    &&& #[trigger] states.len() == genes.len() + 1
                    &&& states[0] == *old(rng)
                    &&& states[states.len() - 1] == after
                    &&& forall|i: int|
                        0 <= i < genes.len() ==> drawn(*draw, #[trigger] genes[i]) && exists|
                            r: &mut ChaCha8Rng,
                        |
                            {
                                &&& *r == states[i]
                                &&& #[trigger] call_ensures(*draw, (r,), genes[i])
                                &&& *final(r) == states[i + 1]
                            }
                };
            // with a run in hand, the run that the contract asks for is found
            assert(states[0] == *old(rng));
        }
        Layer { neurons }
    }
}

} // verus!
