use crate::chromosome::Chromosome;
use crate::crossover::CrossoverMethod;
use crate::error::Error;
use crate::individual::Individual;
use crate::mutation::MutationMethod;
use crate::selection::SelectionMethod;
use rand_chacha::ChaCha8Rng;
use vstd::prelude::*;

verus! {

/// Turns one generation into the next by the three methods it was built
/// with.
pub struct GeneticAlgorithm<S, C, M> {
    selection_method: S,
    crossover_method: C,
    mutation_method: M,
}

/// `parent` is a member that `selection` may pick from `population`.
pub open spec fn selects<T, S: SelectionMethod<T>>(
    selection: &S,
    population: &[T],
    parent: &T,
) -> bool {
    exists|rng: &mut ChaCha8Rng| #[trigger]
        call_ensures(S::select, (selection, rng, population), Ok::<&T, Error>(parent))
}

/// `outcome` is what `crossover` may return for the chromosomes of two
/// members that `selection` may pick from `population`, one after the other.
pub open spec fn crosses<R, T: Individual<R>, S: SelectionMethod<T>, C: CrossoverMethod<R>>(
    selection: &S,
    crossover: &C,
    population: &[T],
    outcome: Result<Chromosome<R>, Error>,
) -> bool {
    exists|
        parent_a: &T,
        parent_b: &T,
        of_a: &Chromosome<R>,
        of_b: &Chromosome<R>,
        rng: &mut ChaCha8Rng,
    |
        #![trigger
            selects(selection, population, parent_a),
            selects(selection, population, parent_b),
            call_ensures(C::crossover, (crossover, rng, of_a, of_b), outcome)]
        {
            &&& selects(selection, population, parent_a)
            &&& selects(selection, population, parent_b)
            &&& call_ensures(T::chromosome, (parent_a,), of_a)
            &&& call_ensures(T::chromosome, (parent_b,), of_b)
            &&& call_ensures(C::crossover, (crossover, rng, of_a, of_b), outcome)
        }
}

/// `e` is an error that `selection` may return for `population`.
pub open spec fn select_fails<T, S: SelectionMethod<T>>(
    selection: &S,
    population: &[T],
    e: Error,
) -> bool {
    exists|rng: &mut ChaCha8Rng| #[trigger]
        call_ensures(S::select, (selection, rng, population), Err::<&T, Error>(e))
}

/// `e` is an error that `crossover` may return for the chromosomes of two
/// members that `selection` may pick from `population`, one after the other.
pub open spec fn crossover_fails<R, T: Individual<R>, S: SelectionMethod<T>, C: CrossoverMethod<R>>(
    selection: &S,
    crossover: &C,
    population: &[T],
    e: Error,
) -> bool {
    crosses(selection, crossover, population, Err::<Chromosome<R>, Error>(e))
}

/// `child` was built from a genome that is as long as the chromosomes of
/// two members of `population`, which may be one and the same member.
pub open spec fn descends<R, T: Individual<R>>(population: Seq<T>, child: T) -> bool {
    exists|a: int, b: int, of_a: &Chromosome<R>, of_b: &Chromosome<R>, genome: Chromosome<R>|
        #![trigger
            call_ensures(T::chromosome, (&population[a],), of_a),
            call_ensures(T::chromosome, (&population[b],), of_b),
            call_ensures(T::create, (genome,), child)]
        {
            &&& 0 <= a < population.len()
            &&& 0 <= b < population.len()
            &&& call_ensures(T::chromosome, (&population[a],), of_a)
            &&& call_ensures(T::chromosome, (&population[b],), of_b)
            &&& genome@.len() == of_a@.len()
            &&& genome@.len() == of_b@.len()
            &&& call_ensures(T::create, (genome,), child)
        }
}

impl<S, C, M> GeneticAlgorithm<S, C, M> {
    /// The selection method this orchestrator was built with.
    pub closed spec fn selection_method(&self) -> S {
        self.selection_method
    }

    /// The crossover method this orchestrator was built with.
    pub closed spec fn crossover_method(&self) -> C {
        self.crossover_method
    }

    /// The mutation method this orchestrator was built with.
    pub closed spec fn mutation_method(&self) -> M {
        self.mutation_method
    }

    /// An orchestrator that uses the three given methods.
    pub fn new(selection_method: S, crossover_method: C, mutation_method: M) -> (algorithm: Self)
        ensures
            algorithm.selection_method() == selection_method,
            algorithm.crossover_method() == crossover_method,
            algorithm.mutation_method() == mutation_method,
    {
        GeneticAlgorithm { selection_method, crossover_method, mutation_method }
    }

    /// Breeds one individual: selects a first and then a second parent,
    /// crosses their genomes, mutates the child genome and builds the
    /// individual that carries it.
    fn breed<R, T>(&self, rng: &mut ChaCha8Rng, population: &[T]) -> (child: Result<T, Error>)
        where
            T: Individual<R>,
            S: SelectionMethod<T>,
            C: CrossoverMethod<R>,
            M: MutationMethod<R>,
        ensures
            population@.len() == 0 ==> child == Err::<T, Error>(Error::EmptyPopulation),
            child matches Err(e) ==> select_fails(&self.selection_method(), population, e)
                || crossover_fails(
                &self.selection_method(),
                &self.crossover_method(),
                population,
                e,
            ),
            child matches Ok(bred) ==> descends(population@, bred),
            child matches Ok(bred) ==> 
exists|
                    first: &mut ChaCha8Rng,
                    second: &mut ChaCha8Rng,
                    cross: &mut ChaCha8Rng,
                    mutate: &mut ChaCha8Rng,
                    parent_a: &T,
                    parent_b: &T,
                    of_a: &Chromosome<R>,
                    of_b: &Chromosome<R>,
                    genome: &mut Chromosome<R>,
                |
                    #![trigger
                        call_ensures(
                            S::select,
                            (&self.selection_method(), first, population),
                            Ok::<&T, Error>(parent_a),
                        ),
                        call_ensures(
                            S::select,
                            (&self.selection_method(), second, population),
                            Ok::<&T, Error>(parent_b),
                        ),
                        call_ensures(T::chromosome, (parent_a,), of_a),
                        call_ensures(T::chromosome, (parent_b,), of_b),
                        call_ensures(
                            C::crossover,
                            (&self.crossover_method(), cross, of_a, of_b),
                            Ok::<Chromosome<R>, Error>(*genome),
                        ),
                        call_ensures(M::mutate, (&self.mutation_method(), mutate, genome), ())]
                    {
                        &&& *first == *old(rng)
                        &&& call_ensures(
                            S::select,
                            (&self.selection_method(), first, population),
                            Ok::<&T, Error>(parent_a),
                        )
                        &&& *second == *final(first)
                        &&& call_ensures(
                            S::select,
                            (&self.selection_method(), second, population),
                            Ok::<&T, Error>(parent_b),
                        )
                        &&& call_ensures(T::chromosome, (parent_a,), of_a)
                        &&& call_ensures(T::chromosome, (parent_b,), of_b)
                        &&& *cross == *final(second)
                        &&& call_ensures(
                            C::crossover,
                            (&self.crossover_method(), cross, of_a, of_b),
                            Ok::<Chromosome<R>, Error>(*genome),
                        )
                        &&& *mutate == *final(cross)
                        &&& call_ensures(M::mutate, (&self.mutation_method(), mutate, genome), ())
                        &&& *final(mutate) == *final(rng)
                        &&& call_ensures(T::create, (*final(genome),), bred)
                    },
    {
        let parent_a = match self.selection_method.select(rng, population) {
            Ok(parent) => parent,
            Err(e) => {
                assert(select_fails(&self.selection_method, population, e));
                return Err(e);
            },
        };
        assert(selects(&self.selection_method, population, parent_a));
        let parent_b = match self.selection_method.select(rng, population) {
            Ok(parent) => parent,
            Err(e) => {
                assert(select_fails(&self.selection_method, population, e));
                return Err(e);
            },
        };
        assert(selects(&self.selection_method, population, parent_b));
        let of_a = parent_a.chromosome();
        let of_b = parent_b.chromosome();
        let mut genome: Chromosome<R> = match self.crossover_method.crossover(rng, of_a, of_b) {
            Ok(genome) => genome,
            Err(e) => {
                assert(crossover_fails(
                    &self.selection_method,
                    &self.crossover_method,
                    population,
                    e,
                ));
                return Err(e);
            },
        };
        self.mutation_method.mutate(rng, &mut genome);
        proof {
            // the contract names the methods through their accessors
            assert(self.selection_method() == self.selection_method);
            assert(self.crossover_method() == self.crossover_method);
            assert(self.mutation_method() == self.mutation_method);
        }
        Ok(T::create(genome))
    }

    /// The next generation: as many individuals as `population` holds, bred
    /// one after the other, slot by slot.
    ///
    /// For every slot, in index order, the selection method picks a first
    /// and then a second parent, which may be one and the same member; the
    /// crossover method crosses the chromosome of the first with that of the
    /// second; the mutation method mutates what came of it; and the
    /// individual of the slot is built from the mutated genome. Each of the
    /// four calls finds the generator as the call before it left it, within a
    /// slot and from one slot to the next.
    ///
    /// An empty population is refused with `Error::EmptyPopulation` before
    /// anything is drawn. An error of the selection or the crossover method
    /// ends the call and is handed on unchanged; no other error comes out, so
    /// with methods that cannot fail the call succeeds.
    pub fn evolve<R, T>(&self, rng: &mut ChaCha8Rng, population: &[T]) -> (next: Result<
        Vec<T>,
        Error,
    >)
        where
            T: Individual<R>,
            S: SelectionMethod<T>,
            C: CrossoverMethod<R>,
            M: MutationMethod<R>,
        ensures
            population@.len() == 0 ==> next == Err::<Vec<T>, Error>(Error::EmptyPopulation),
            population@.len() == 0 ==> *final(rng) == *old(rng),
            next matches Err(e) ==> (population@.len() == 0 && e == Error::EmptyPopulation)
                || select_fails(&self.selection_method(), population, e) || crossover_fails(
                &self.selection_method(),
                &self.crossover_method(),
                population,
                e,
            ),
            next matches Ok(generation) ==> generation@.len() == population@.len(),
            next matches Ok(generation) ==> exists|marks: Seq<ChaCha8Rng>|
                {
                    &&& marks.len() == generation@.len() + 1
                    &&& marks[0] == *old(rng)
                    &&& marks[generation@.len() as int] == *final(rng)
                    &&& forall|i: int|
                        0 <= i < generation@.len() ==> descends(
                            population@,
                            #[trigger] generation@[i],
                        ) && 
exists|
                            first: &mut ChaCha8Rng,
                            second: &mut ChaCha8Rng,
                            cross: &mut ChaCha8Rng,
                            mutate: &mut ChaCha8Rng,
                            parent_a: &T,
                            parent_b: &T,
                            of_a: &Chromosome<R>,
                            of_b: &Chromosome<R>,
                            genome: &mut Chromosome<R>,
                        |
                            #![trigger
                                call_ensures(
                                    S::select,
                                    (&self.selection_method(), first, population),
                                    Ok::<&T, Error>(parent_a),
                                ),
                                call_ensures(
                                    S::select,
                                    (&self.selection_method(), second, population),
                                    Ok::<&T, Error>(parent_b),
                                ),
                                call_ensures(T::chromosome, (parent_a,), of_a),
                                call_ensures(T::chromosome, (parent_b,), of_b),
                                call_ensures(
                                    C::crossover,
                                    (&self.crossover_method(), cross, of_a, of_b),
                                    Ok::<Chromosome<R>, Error>(*genome),
                                ),
                                call_ensures(
                                    M::mutate,
                                    (&self.mutation_method(), mutate, genome),
                                    (),
                                )]
                            {
                                &&& *first == marks[i]
                                &&& call_ensures(
                                    S::select,
                                    (&self.selection_method(), first, population),
                                    Ok::<&T, Error>(parent_a),
                                )
                                &&& *second == *final(first)
                                &&& call_ensures(
                                    S::select,
                                    (&self.selection_method(), second, population),
                                    Ok::<&T, Error>(parent_b),
                                )
                                &&& call_ensures(T::chromosome, (parent_a,), of_a)
                                &&& call_ensures(T::chromosome, (parent_b,), of_b)
                                &&& *cross == *final(second)
                                &&& call_ensures(
                                    C::crossover,
                                    (&self.crossover_method(), cross, of_a, of_b),
                                    Ok::<Chromosome<R>, Error>(*genome),
                                )
                                &&& *mutate == *final(cross)
                                &&& call_ensures(
                                    M::mutate,
                                    (&self.mutation_method(), mutate, genome),
                                    (),
                                )
                                &&& *final(mutate) == marks[i + 1]
                                &&& call_ensures(T::create, (*final(genome),), generation@[i])
                            }
                },
    {
        if population.len() == 0 {
            return Err(Error::EmptyPopulation);
        }
        let ghost mut marks = seq![*rng];
        let mut generation: Vec<T> = Vec::new();
        let mut slot: usize = 0;
        while slot < population.len()
            invariant
                slot <= population@.len(),
                generation@.len() == slot,
                marks.len() == slot + 1,
                marks[0] == *old(rng),
                marks[slot as int] == *rng,
                forall|i: int|
                    0 <= i < slot ==> descends(population@, #[trigger] generation@[i]) && 
exists|
                            first: &mut ChaCha8Rng,
                            second: &mut ChaCha8Rng,
                            cross: &mut ChaCha8Rng,
                            mutate: &mut ChaCha8Rng,
                            parent_a: &T,
                            parent_b: &T,
                            of_a: &Chromosome<R>,
                            of_b: &Chromosome<R>,
                            genome: &mut Chromosome<R>,
                        |
                            #![trigger
                                call_ensures(
                                    S::select,
                                    (&self.selection_method(), first, population),
                                    Ok::<&T, Error>(parent_a),
                                ),
                                call_ensures(
                                    S::select,
                                    (&self.selection_method(), second, population),
                                    Ok::<&T, Error>(parent_b),
                                ),
                                call_ensures(T::chromosome, (parent_a,), of_a),
                                call_ensures(T::chromosome, (parent_b,), of_b),
                                call_ensures(
                                    C::crossover,
                                    (&self.crossover_method(), cross, of_a, of_b),
                                    Ok::<Chromosome<R>, Error>(*genome),
                                ),
                                call_ensures(
                                    M::mutate,
                                    (&self.mutation_method(), mutate, genome),
                                    (),
                                )]
                            {
                                &&& *first == marks[i]
                                &&& call_ensures(
                                    S::select,
                                    (&self.selection_method(), first, population),
                                    Ok::<&T, Error>(parent_a),
                                )
                                &&& *second == *final(first)
                                &&& call_ensures(
                                    S::select,
                                    (&self.selection_method(), second, population),
                                    Ok::<&T, Error>(parent_b),
                                )
                                &&& call_ensures(T::chromosome, (parent_a,), of_a)
                                &&& call_ensures(T::chromosome, (parent_b,), of_b)
                                &&& *cross == *final(second)
                                &&& call_ensures(
                                    C::crossover,
                                    (&self.crossover_method(), cross, of_a, of_b),
                                    Ok::<Chromosome<R>, Error>(*genome),
                                )
                                &&& *mutate == *final(cross)
                                &&& call_ensures(
                                    M::mutate,
                                    (&self.mutation_method(), mutate, genome),
                                    (),
                                )
                                &&& *final(mutate) == marks[i + 1]
                                &&& call_ensures(T::create, (*final(genome),), generation@[i])
                            },
            decreases population@.len() - slot,
        {
            let ghost marked = marks;
            let ghost bred_so_far = generation@;
            match self.breed(rng, population) {
                Ok(child) => {
                    generation.push(child);
                },
                Err(e) => {
                    return Err(e);
                },
            }
            proof {
                marks = marks.push(*rng);
                assert forall|i: int| 0 <= i < slot + 1 implies descends(
                    population@,
                    #[trigger] generation@[i],
                ) && 
exists|
                        first: &mut ChaCha8Rng,
                        second: &mut ChaCha8Rng,
                        cross: &mut ChaCha8Rng,
                        mutate: &mut ChaCha8Rng,
                        parent_a: &T,
                        parent_b: &T,
                        of_a: &Chromosome<R>,
                        of_b: &Chromosome<R>,
                        genome: &mut Chromosome<R>,
                    |
                        #![trigger
                            call_ensures(
                                S::select,
                                (&self.selection_method(), first, population),
                                Ok::<&T, Error>(parent_a),
                            ),
                            call_ensures(
                                S::select,
                                (&self.selection_method(), second, population),
                                Ok::<&T, Error>(parent_b),
                            ),
                            call_ensures(T::chromosome, (parent_a,), of_a),
                            call_ensures(T::chromosome, (parent_b,), of_b),
                            call_ensures(
                                C::crossover,
                                (&self.crossover_method(), cross, of_a, of_b),
                                Ok::<Chromosome<R>, Error>(*genome),
                            ),
                            call_ensures(M::mutate, (&self.mutation_method(), mutate, genome), ())]
                        {
                            &&& *first == marks[i]
                            &&& call_ensures(
                                S::select,
                                (&self.selection_method(), first, population),
                                Ok::<&T, Error>(parent_a),
                            )
                            &&& *second == *final(first)
                            &&& call_ensures(
                                S::select,
                                (&self.selection_method(), second, population),
                                Ok::<&T, Error>(parent_b),
                            )
                            &&& call_ensures(T::chromosome, (parent_a,), of_a)
                            &&& call_ensures(T::chromosome, (parent_b,), of_b)
                            &&& *cross == *final(second)
                            &&& call_ensures(
                                C::crossover,
                                (&self.crossover_method(), cross, of_a, of_b),
                                Ok::<Chromosome<R>, Error>(*genome),
                            )
                            &&& *mutate == *final(cross)
                            &&& call_ensures(
                                M::mutate,
                                (&self.mutation_method(), mutate, genome),
                                (),
                            )
                            &&& *final(mutate) == marks[i + 1]
                            &&& call_ensures(T::create, (*final(genome),), generation@[i])
                        } by {
                    if i < slot {
                        assert(generation@[i] == bred_so_far[i]);
                        assert(marks[i] == marked[i] && marks[i + 1] == marked[i + 1]);
                        assert(descends(population@, bred_so_far[i]));
                    } else {
                        assert(marks[i] == marked[i]);
                        assert(marks[i + 1] == *rng);
                    }
                }
            }
            slot += 1;
        }
        Ok(generation)
    }
}

} // verus!
