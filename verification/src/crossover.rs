use crate::chromosome::Chromosome;
use crate::error::Error;
use crate::random::{fair_coins, tossed, tossed_on};
use rand_chacha::ChaCha8Rng;
use vstd::prelude::*;

verus! {

/// A way to combine the genomes of two parents into the genome of a child.
pub trait CrossoverMethod<R> {
    /// Combines two parents of equal length into a child of that length.
    ///
    /// Parents of unequal length are refused with `Error::LengthMismatch`.
    fn crossover(
        &self,
        rng: &mut ChaCha8Rng,
        parent_a: &Chromosome<R>,
        parent_b: &Chromosome<R>,
    ) -> (child: Result<Chromosome<R>, Error>)
        ensures
            parent_a@.len() != parent_b@.len() ==> child == Err::<Chromosome<R>, Error>(
                Error::LengthMismatch,
            ),
            child matches Ok(genome) ==> genome@.len() == parent_a@.len(),
    ;
}

/// The genome that takes, at every index, the gene of `a` where `mask` is
/// true and the gene of `b` where it is false.
pub open spec fn blended<R>(mask: Seq<bool>, a: Seq<R>, b: Seq<R>) -> Seq<R> {
    Seq::new(a.len(), |i: int| if mask[i] { a[i] } else { b[i] })
}

/// Uniform crossover: every gene of the child comes from one of the parents,
/// chosen by a fair coin that is tossed once per gene, in index order.
#[derive(Clone, Copy, Debug)]
pub struct UniformCrossover;

impl UniformCrossover {
    /// Combines two parents by a given mask: where the mask is true the child
    /// takes the gene of `parent_a`, elsewhere that of `parent_b`.
    ///
    /// The mask and both parents have to agree in length; otherwise the call
    /// fails with `Error::LengthMismatch`.
    pub fn blend<R: Copy>(
        mask: &[bool],
        parent_a: &Chromosome<R>,
        parent_b: &Chromosome<R>,
    ) -> (child: Result<Chromosome<R>, Error>)
        ensures
            child is Ok <==> mask@.len() == parent_a@.len() && parent_a@.len() == parent_b@.len(),
            child matches Ok(genome) ==> genome@ == blended(mask@, parent_a@, parent_b@),
            child matches Err(e) ==> e == Error::LengthMismatch,
    {
        let len = parent_a.len();
        if mask.len() != len || parent_b.len() != len {
            return Err(Error::LengthMismatch);
        }
        let a = parent_a.as_slice();
        let b = parent_b.as_slice();
        let mut genes: Vec<R> = Vec::new();
        let mut i: usize = 0;
        while i < len
            invariant
                i <= len,
                len == mask@.len(),
                len == a@.len(),
                len == b@.len(),
                genes@.len() == i,
                forall|j: int| 0 <= j < i ==> genes@[j] == (if mask@[j] { a@[j] } else { b@[j] }),
            decreases len - i,
        {
            let gene: R = if mask[i] { a[i] } else { b[i] };
            genes.push(gene);
            i += 1;
        }
        Ok(Chromosome::from_vec(genes))
    }
}

impl<R: Copy> CrossoverMethod<R> for UniformCrossover {
    /// Tosses one fair coin per gene, in index order, and takes the gene of
    /// `parent_a` on heads and the gene of `parent_b` on tails: the mask of
    /// the child holds the answers of as many tosses as there are genes, each
    /// toss finding the generator as the toss before it left it. Parents of
    /// unequal length are refused before any coin is tossed, and for parents
    /// without genes none is tossed either.
    fn crossover(
        &self,
        rng: &mut ChaCha8Rng,
        parent_a: &Chromosome<R>,
        parent_b: &Chromosome<R>,
    ) -> (child: Result<Chromosome<R>, Error>)
        ensures
            child is Ok <==> parent_a@.len() == parent_b@.len(),
            child matches Err(e) ==> e == Error::LengthMismatch,
            child is Err || parent_a@.len() == 0 ==> *final(rng) == *old(rng),
            child matches Ok(genome) ==> exists|mask: Seq<bool>, states: Seq<ChaCha8Rng>|
                {
                    &&& mask.len() == parent_a@.len()
                    &&& states.len() == mask.len() + 1
                    &&& states[0] == *old(rng)
                    &&& states[mask.len() as int] == *final(rng)
                    &&& forall|i: int|
                        0 <= i < mask.len() ==> tossed(#[trigger] mask[i]) && exists|
                            coin: &mut ChaCha8Rng,
                        |
                            {
                                &&& *coin == states[i]
                                &&& #[trigger] tossed_on(coin, mask[i])
                                &&& *final(coin) == states[i + 1]
                            }
                    &&& genome@ == blended(mask, parent_a@, parent_b@)
                },
            child matches Ok(genome) ==> forall|i: int|
                0 <= i < genome@.len() ==> genome@[i] == parent_a@[i] || genome@[i] == parent_b@[i],
    {
        if parent_a.len() != parent_b.len() {
            return Err(Error::LengthMismatch);
        }
        let count = parent_a.len();
        let mask = fair_coins(rng, count);
        let child = Self::blend(mask.as_slice(), parent_a, parent_b);
        proof {
            let after = *rng;
            assert(exists|states: Seq<ChaCha8Rng>|
                {
                    &&& states.len() == count + 1
                    &&& states[0] == *old(rng)
                    &&& states[count as int] == after
                    &&& forall|i: int|
                        0 <= i < count ==> tossed(#[trigger] mask@[i]) && exists|
                            coin: &mut ChaCha8Rng,
                        |
                            {
                                &&& *coin == states[i]
                                &&& #[trigger] tossed_on(coin, mask@[i])
                                &&& *final(coin) == states[i + 1]
                            }
                });
            let states = choose|states: Seq<ChaCha8Rng>|
                {
                    &&& states.len() == count + 1
                    &&& states[0] == *old(rng)
                    &&& states[count as int] == after
                    &&& forall|i: int|
                        0 <= i < count ==> tossed(#[trigger] mask@[i]) && exists|
                            coin: &mut ChaCha8Rng,
                        |
                            {
                                &&& *coin == states[i]
                                &&& #[trigger] tossed_on(coin, mask@[i])
                                &&& *final(coin) == states[i + 1]
                            }
                };
            // with a run in hand, the run that the contract asks for is found
            assert(states[0] == *old(rng) && states[mask@.len() as int] == after);
        }
        child
    }
}

/// `method` may be handed `rng` as it is and the two parents, return `child`
/// and leave `rng` as it is to be in the end.
pub open spec fn crossed_by<R, M: CrossoverMethod<R> + ?Sized>(
    method: &M,
    rng: &mut ChaCha8Rng,
    parent_a: &Chromosome<R>,
    parent_b: &Chromosome<R>,
    child: Result<Chromosome<R>, Error>,
) -> bool {
    call_ensures(M::crossover, (method, rng, parent_a, parent_b), child)
}

/// Lets `method` cross the two parents with `rng`.
fn cross_by<R, M: CrossoverMethod<R> + ?Sized>(
    method: &M,
    rng: &mut ChaCha8Rng,
    parent_a: &Chromosome<R>,
    parent_b: &Chromosome<R>,
) -> (child: Result<Chromosome<R>, Error>)
    ensures
        parent_a@.len() != parent_b@.len() ==> child == Err::<Chromosome<R>, Error>(
            Error::LengthMismatch,
        ),
        child matches Ok(genome) ==> genome@.len() == parent_a@.len(),
        exists|with: &mut ChaCha8Rng|
            {
                &&& *with == *old(rng)
                &&& #[trigger] crossed_by(method, with, parent_a, parent_b, child)
                &&& *final(with) == *final(rng)
            },
{
    let child = method.crossover(rng, parent_a, parent_b);
    // what is known of the call is known as `crossed_by`
    assert forall|with: &mut ChaCha8Rng| #[trigger]
        call_ensures(M::crossover, (method, with, parent_a, parent_b), child) implies crossed_by(
        method,
        with,
        parent_a,
        parent_b,
        child,
    ) by {}
    child
}

/// A crossover method that is chosen when the program runs.
impl<R> CrossoverMethod<R> for Box<dyn CrossoverMethod<R>> {
    /// Hands the generator and the parents to the boxed method and returns
    /// what that method returns; the generator is afterwards as that method
    /// left it.
    fn crossover(
        &self,
        rng: &mut ChaCha8Rng,
        parent_a: &Chromosome<R>,
        parent_b: &Chromosome<R>,
    ) -> (child: Result<Chromosome<R>, Error>)
        ensures
            exists|with: &mut ChaCha8Rng|
                {
                    &&& *with == *old(rng)
                    &&& #[trigger] crossed_by::<R, dyn CrossoverMethod<R>>(
                        &**self,
                        with,
                        parent_a,
                        parent_b,
                        child,
                    )
                    &&& *final(with) == *final(rng)
                },
    {
        cross_by::<R, dyn CrossoverMethod<R>>(&**self, rng, parent_a, parent_b)
    }
}

} // verus!
