use crate::error::Error;
use crate::individual::Individual;
use core::marker::PhantomData;
use rand_chacha::ChaCha8Rng;
use vstd::prelude::*;

verus! {

/// A way to pick one individual out of a population.
///
/// Picks are independent and made with replacement: two calls may return the
/// same individual.
pub trait SelectionMethod<T> {
    /// Picks one member of `population`.
    ///
    /// An empty population is refused with `Error::EmptyPopulation`; a method
    /// that weighs by fitness refuses with `Error::DegenerateWeights` a
    /// population in which no fitness is positive. Whoever is picked is a
    /// member of the population.
    fn select<'a>(&self, rng: &mut ChaCha8Rng, population: &'a [T]) -> (chosen: Result<
        &'a T,
        Error,
    >)
        ensures
            population@.len() == 0 ==> chosen == Err::<&T, Error>(Error::EmptyPopulation),
            chosen matches Ok(member) ==> exists|i: int|
                0 <= i < population@.len() && *member == #[trigger] population@[i],
    ;
}

/// `wheel` may be called on every generator and on all weights.
pub open spec fn wheel_ready<R, W: Fn(&mut ChaCha8Rng, &[R]) -> Result<usize, Error>>(
    wheel: W,
) -> bool {
    forall|rng: &mut ChaCha8Rng, weights: &[R]| #[trigger] call_requires(wheel, (rng, weights))
}

/// `weights` holds, in the order of the population, a fitness that each
/// individual may report.
pub open spec fn weighs<R, T: Individual<R>>(population: Seq<T>, weights: Seq<R>) -> bool {
    &&& weights.len() == population.len()
    &&& forall|i: int|
        0 <= i < population.len() ==> call_ensures(
            T::fitness,
            (&population[i],),
            #[trigger] weights[i],
        )
}

/// `chosen` is what selection returns when the wheel has come to rest on
/// `outcome`: the member at the index, `Error::DegenerateWeights` for an
/// index that no member has, and the wheel's own error unchanged.
pub open spec fn lands<T>(
    population: Seq<T>,
    outcome: Result<usize, Error>,
    chosen: Result<&T, Error>,
) -> bool {
    match outcome {
        Ok(index) => if index < population.len() {
            chosen matches Ok(member) && *member == population[index as int]
        } else {
            chosen == Err::<&T, Error>(Error::DegenerateWeights)
        },
        Err(e) => chosen == Err::<&T, Error>(e),
    }
}

/// The member of `population` on which a wheel has come to rest.
pub fn member_at<'a, T>(population: &'a [T], outcome: Result<usize, Error>) -> (chosen: Result<
    &'a T,
    Error,
>)
    ensures
        lands(population@, outcome, chosen),
{
    match outcome {
        Ok(index) => if index < population.len() {
            Ok(&population[index])
        } else {
            Err(Error::DegenerateWeights)
        },
        Err(e) => Err(e),
    }
}

/// Roulette-wheel selection: an individual is picked with a probability
/// proportional to its fitness.
///
/// The fitness values of the population, in its order, are the sectors of a
/// wheel. Spinning it is a weighted draw over reals, which this library
/// leaves to its caller: `wheel` takes the weights and returns the index of
/// the sector it has come to rest on, or the reason why it cannot be spun.
#[verifier::reject_recursive_types(R)]
pub struct RouletteWheelSelection<R, W> where W: Fn(&mut ChaCha8Rng, &[R]) -> Result<usize, Error> {
    wheel: W,
    weight: PhantomData<R>,
}

impl<R, W> RouletteWheelSelection<R, W> where
    W: Fn(&mut ChaCha8Rng, &[R]) -> Result<usize, Error>,
 {
    /// The function that spins the wheel.
    pub closed spec fn wheel(&self) -> W {
        self.wheel
    }

    #[verifier::type_invariant]
    spec fn ready(self) -> bool {
        wheel_ready(self.wheel)
    }

    /// The selection that spins by `wheel`.
    pub fn new(wheel: W) -> (selection: Self)
        requires
            wheel_ready(wheel),
        ensures
            selection.wheel() == wheel,
    {
        RouletteWheelSelection { wheel, weight: PhantomData }
    }
}

impl<R, T, W> SelectionMethod<T> for RouletteWheelSelection<R, W> where
    T: Individual<R>,
    W: Fn(&mut ChaCha8Rng, &[R]) -> Result<usize, Error>,
 {
    /// Asks every individual for its fitness, in the order of the
    /// population, spins the wheel once over these weights and returns the
    /// member it has come to rest on. The one spin finds the generator as it
    /// is and leaves it as it is afterwards. For an empty population the
    /// wheel is not spun.
    fn select<'a>(&self, rng: &mut ChaCha8Rng, population: &'a [T]) -> (chosen: Result<
        &'a T,
        Error,
    >)
        ensures
            population@.len() == 0 ==> *final(rng) == *old(rng),
            population@.len() == 1 ==> (chosen matches Ok(member) ==> *member == population@[0]),
            population@.len() > 0 ==> exists|
                outcome: Result<usize, Error>,
                spin: &mut ChaCha8Rng,
                weights: &[R],
            |
                {
                    &&& weighs(population@, weights@)
                    &&& *spin == *old(rng)
                    &&& #[trigger] call_ensures(self.wheel(), (spin, weights), outcome)
                    &&& *final(spin) == *final(rng)
                    &&& lands(population@, outcome, chosen)
                },
    {
        proof {
            use_type_invariant(self);
        }
        let len = population.len();
        if len == 0 {
            return Err(Error::EmptyPopulation);
        }
        let mut weights: Vec<R> = Vec::new();
        let mut i: usize = 0;
        while i < len
            invariant
                i <= len,
                len == population@.len(),
                weights@.len() == i,
                forall|j: int|
                    0 <= j < i ==> call_ensures(
                        T::fitness,
                        (&population@[j],),
                        #[trigger] weights@[j],
                    ),
            decreases len - i,
        {
            weights.push(population[i].fitness());
            i += 1;
        }
        let sectors = weights.as_slice();
        let outcome = (self.wheel)(rng, sectors);
        proof {
            // the contract names the wheel through its accessor
            assert(self.wheel() == self.wheel);
        }
        member_at(population, outcome)
    }
}

} // verus!
