use crate::error::Error;
use crate::network::genes::neuron_genes;
use crate::network::model::NeuronModel;
use rand_chacha::ChaCha8Rng;
use vstd::prelude::*;

verus! {

/// One neuron: a bias and one weight per input.
#[derive(Debug, PartialEq)]
pub struct Neuron<R> {
    bias: R,
    weights: Vec<R>,
}

impl<R> View for Neuron<R> {
    type V = NeuronModel<R>;

    closed spec fn view(&self) -> NeuronModel<R> {
        NeuronModel { bias: self.bias, weights: self.weights@ }
    }
}

/// If `inputs` has one entry per weight of `neuron`, `kernel` may be called
/// on the two.
pub open spec fn kernel_takes<R, F: Fn(&Neuron<R>, &[R]) -> R>(
    kernel: F,
    neuron: &Neuron<R>,
    inputs: &[R],
) -> bool {
    inputs@.len() == neuron@.weights.len() ==> call_requires(kernel, (neuron, inputs))
}

impl<R> Neuron<R> {
    /// The neuron with the given bias and weights.
    pub fn new(bias: R, weights: Vec<R>) -> (neuron: Self)
        ensures
            neuron@ == (NeuronModel { bias, weights: weights@ }),
    {
        Neuron { bias, weights }
    }

    /// The bias.
    pub fn bias(&self) -> (bias: &R)
        ensures
            *bias == self@.bias,
    {
        &self.bias
    }

    /// The weights, one per input.
    pub fn weights(&self) -> (weights: &[R])
        ensures
            weights@ == self@.weights,
    {
        self.weights.as_slice()
    }

    /// The output of this neuron for `inputs`, computed by `kernel`.
    ///
    /// The neuron checks that there is one input per weight and fails with
    /// `Error::LengthMismatch` if there is not; the arithmetic is the
    /// kernel's, which is called once, and only on a matching input.
    pub fn propagate<F: Fn(&Neuron<R>, &[R]) -> R>(
        &self,
        inputs: &[R],
        kernel: &F,
    ) -> (output: Result<R, Error>)
        requires
            kernel_takes(*kernel, self, inputs),
        ensures
            output is Err <==> inputs@.len() != self@.weights.len(),
            output matches Err(e) ==> e == Error::LengthMismatch,
            output matches Ok(value) ==> call_ensures(*kernel, (self, inputs), value),
    {
        if inputs.len() != self.weights.len() {
            return Err(Error::LengthMismatch);
        }
        Ok(kernel(self, inputs))
    }
}

impl<R: Copy> Neuron<R> {
    /// Appends the genes of this neuron to `genes`.
    pub(crate) fn write_genes(&self, genes: &mut Vec<R>)
        ensures
            final(genes)@ == old(genes)@ + neuron_genes(self@),
    {
        let ghost before = genes@;
        genes.push(self.bias);
        let mut k: usize = 0;
        while k < self.weights.len()
            invariant
                k <= self.weights@.len(),
                genes@ == before + seq![self.bias] + self.weights@.take(k as int),
            decreases self.weights@.len() - k,
        {
            genes.push(self.weights[k]);
            k += 1;
        }
    }

    /// The neuron with `width` weights whose genes stand in `genes` from
    /// index `start` on.
    pub(crate) fn read_genes(genes: &[R], start: usize, width: usize) -> (neuron: Self)
        requires
            start + 1 + width <= genes@.len(),
        ensures
            neuron@.weights.len() == width,
            neuron_genes(neuron@) == genes@.subrange(start as int, start + 1 + width),
    {
        let len = genes.len();
        let bias = genes[start];
        let mut weights: Vec<R> = Vec::new();
        let mut k: usize = 0;
        while k < width
            invariant
                k <= width,
                len == genes@.len(),
                start + 1 + width <= len,
                weights@ == genes@.subrange(start + 1, start + 1 + k),
            decreases width - k,
        {
            weights.push(genes[start + 1 + k]);
            k += 1;
        }
        Neuron { bias, weights }
    }
}

/// `draw` may be called on every generator.
pub open spec fn draw_ready<R, D: Fn(&mut ChaCha8Rng) -> R>(draw: D) -> bool {
    forall|rng: &mut ChaCha8Rng| #[trigger] call_requires(draw, (rng,))
}

/// `value` is something that `draw` may return.
pub open spec fn drawn<R, D: Fn(&mut ChaCha8Rng) -> R>(draw: D, value: R) -> bool {
    exists|rng: &mut ChaCha8Rng| #[trigger] call_ensures(draw, (rng,), value)
}

/// The bias and every weight of `neuron` are something that `draw` may
/// return.
pub open spec fn neuron_drawn<R, D: Fn(&mut ChaCha8Rng) -> R>(
    draw: D,
    neuron: NeuronModel<R>,
) -> bool {
    &&& drawn(draw, neuron.bias)
    &&& forall|k: int| 0 <= k < neuron.weights.len() ==> drawn(draw, #[trigger] neuron.weights[k])
}

/// Two runs of draws, of which the second begins where the first ended,
/// are one run: the values of the first and then those of the second are
/// what `draw` returned call after call.
pub proof fn lemma_draws_append<R, D: Fn(&mut ChaCha8Rng) -> R>(
    draw: D,
    first: Seq<ChaCha8Rng>,
    values: Seq<R>,
    second: Seq<ChaCha8Rng>,
    more: Seq<R>,
)
    requires
        first.len() == values.len() + 1,
        second.len() == more.len() + 1,
        first[values.len() as int] == second[0],
        forall|j: int|
            0 <= j < values.len() ==> drawn(draw, #[trigger] values[j]) && exists|
                r: &mut ChaCha8Rng,
            |
                {
                    &&& *r == first[j]
                    &&& #[trigger] call_ensures(draw, (r,), values[j])
                    &&& *final(r) == first[j + 1]
                },
        forall|j: int|
            0 <= j < more.len() ==> drawn(draw, #[trigger] more[j]) && exists|r: &mut ChaCha8Rng|
                {
                    &&& *r == second[j]
                    &&& #[trigger] call_ensures(draw, (r,), more[j])
                    &&& *final(r) == second[j + 1]
                },
    ensures
        (first + second.skip(1)).len() == (values + more).len() + 1,
        forall|j: int|
            0 <= j < (values + more).len() ==> drawn(draw, #[trigger] (values + more)[j])
                && exists|r: &mut ChaCha8Rng|
                {
                    &&& *r == (first + second.skip(1))[j]
                    &&& #[trigger] call_ensures(draw, (r,), (values + more)[j])
                    &&& *final(r) == (first + second.skip(1))[j + 1]
                },
{
    let states = first + second.skip(1);
    let all = values + more;
    assert forall|j: int| 0 <= j < all.len() implies drawn(draw, #[trigger] all[j]) && exists|
        r: &mut ChaCha8Rng,
    |
        {
            &&& *r == states[j]
            &&& #[trigger] call_ensures(draw, (r,), all[j])
            &&& *final(r) == states[j + 1]
        } by {
        if j < values.len() {
            assert(states[j] == first[j]);
            assert(states[j + 1] == first[j + 1]);
            assert(all[j] == values[j]);
        } else {
            let i = j - values.len();
            assert(states[j] == second[i]);
            assert(states[j + 1] == second[i + 1]);
            assert(all[j] == more[i]);
        }
    }
}

impl<R> Neuron<R> {
    /// A neuron for `input_size` inputs whose parameters are drawn by
    /// `draw`: first the bias, then the weights in index order.
    ///
    /// The genes of the neuron, in their order, are what `draw` returned
    /// call after call, each call finding the generator as the call before
    /// it left it.
    pub fn random<D: Fn(&mut ChaCha8Rng) -> R>(
        rng: &mut ChaCha8Rng,
        input_size: usize,
        draw: &D,
    ) -> (neuron: Self)
        requires
            draw_ready(*draw),
        ensures
            neuron@.weights.len() == input_size,
            neuron_drawn(*draw, neuron@),
            exists|states: Seq<ChaCha8Rng>|
                {
                    &&& states.len() == input_size + 2
                    &&& states[0] == *old(rng)
                    &&& states[input_size + 1] == *final(rng)
                    &&& forall|j: int|
                        0 <= j <= input_size ==> drawn(*draw, #[trigger] neuron_genes(neuron@)[j])
                            && exists|r: &mut ChaCha8Rng|
                            {
                                &&& *r == states[j]
                                &&& #[trigger] call_ensures(*draw, (r,), neuron_genes(neuron@)[j])
                                &&& *final(r) == states[j + 1]
                            }
                },
    {
        let ghost mut states = seq![*rng];
        let bias = draw(rng);
        proof {
            states = states.push(*rng);
        }
        let mut weights: Vec<R> = Vec::new();
        let mut k: usize = 0;
        while k < input_size
            invariant
                k <= input_size,
                draw_ready(*draw),
                weights@.len() == k,
                forall|j: int| 0 <= j < k ==> drawn(*draw, #[trigger] weights@[j]),
                states.len() == k + 2,
                states[0] == *old(rng),
                states[k + 1] == *rng,
                forall|j: int|
                    0 <= j <= k ==> drawn(*draw, #[trigger] (seq![bias] + weights@)[j]) && exists|
                        r: &mut ChaCha8Rng,
                    |
                        {
                            &&& *r == states[j]
                            &&& #[trigger] call_ensures(*draw, (r,), (seq![bias] + weights@)[j])
                            &&& *final(r) == states[j + 1]
                        },
            decreases input_size - k,
        {
            let ghost before = states;
            let ghost drawn_before = seq![bias] + weights@;
            let weight = draw(rng);
            weights.push(weight);
            proof {
                states = states.push(*rng);
                assert forall|j: int| 0 <= j <= k + 1 implies drawn(
                    *draw,
                    #[trigger] (seq![bias] + weights@)[j],
                ) && exists|r: &mut ChaCha8Rng|
                    {
                        &&& *r == states[j]
                        &&& #[trigger] call_ensures(*draw, (r,), (seq![bias] + weights@)[j])
                        &&& *final(r) == states[j + 1]
                    } by {
                    if j <= k {
                        assert(states[j] == before[j]);
                        assert(states[j + 1] == before[j + 1]);
                        assert((seq![bias] + weights@)[j] == drawn_before[j]);
                    }
                }
            }
            k += 1;
        }
        let neuron = Neuron { bias, weights };
        assert(neuron_genes(neuron@) =~= seq![bias] + weights@);
        neuron
    }
}

} // verus!
