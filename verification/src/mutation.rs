use crate::chromosome::Chromosome;
use crate::random::{fair_coin, tossed, tossed_on};
use core::marker::PhantomData;
use rand_chacha::ChaCha8Rng;
use vstd::prelude::*;

verus! {

/// A way to perturb a genome in place.
pub trait MutationMethod<R> {
    /// Perturbs the genes of `child`; their number stays what it was.
    fn mutate(&self, rng: &mut ChaCha8Rng, child: &mut Chromosome<R>)
        ensures
            final(child)@.len() == old(child)@.len(),
    ;
}

/// `trial` may be called on every generator.
pub open spec fn trial_ready<T: Fn(&mut ChaCha8Rng) -> bool>(trial: T) -> bool {
    forall|rng: &mut ChaCha8Rng| #[trigger] call_requires(trial, (rng,))
}

/// `shift` may be called on every generator, gene and sign.
pub open spec fn shift_ready<R, S: Fn(&mut ChaCha8Rng, R, bool) -> R>(shift: S) -> bool {
    forall|rng: &mut ChaCha8Rng, gene: R, negative: bool| #[trigger]
        call_requires(shift, (rng, gene, negative))
}

/// `trial` never succeeds.
pub open spec fn never_hits<T: Fn(&mut ChaCha8Rng) -> bool>(trial: T) -> bool {
    forall|rng: &mut ChaCha8Rng, hit: bool| #[trigger] call_ensures(trial, (rng,), hit) ==> !hit
}

/// `trial` always succeeds.
pub open spec fn always_hits<T: Fn(&mut ChaCha8Rng) -> bool>(trial: T) -> bool {
    forall|rng: &mut ChaCha8Rng, hit: bool| #[trigger] call_ensures(trial, (rng,), hit) ==> hit
}

/// `hit` is an answer that `trial` may give.
pub open spec fn may_decide<T: Fn(&mut ChaCha8Rng) -> bool>(trial: T, hit: bool) -> bool {
    exists|rng: &mut ChaCha8Rng| #[trigger] call_ensures(trial, (rng,), hit)
}

/// Whatever `shift` returns for a gene differs from that gene.
pub open spec fn always_moves<R, S: Fn(&mut ChaCha8Rng, R, bool) -> R>(shift: S) -> bool {
    forall|rng: &mut ChaCha8Rng, gene: R, negative: bool, moved: R| #[trigger]
        call_ensures(shift, (rng, gene, negative), moved) ==> moved != gene
}

/// `moved` is a gene that `shift` may return for `gene` when it is told the
/// direction that a fair coin gave.
pub open spec fn may_shift<R, S: Fn(&mut ChaCha8Rng, R, bool) -> R>(
    shift: S,
    gene: R,
    moved: R,
) -> bool {
    exists|rng: &mut ChaCha8Rng, negative: bool|
        tossed(negative) && #[trigger] call_ensures(shift, (rng, gene, negative), moved)
}

/// `after` is what the walk may leave in the place of `gene`: the gene
/// itself, after a trial that failed, or what `shift` made of it, after a
/// trial that succeeded.
pub open spec fn walked<R, T, S>(trial: T, shift: S, gene: R, after: R) -> bool where
    T: Fn(&mut ChaCha8Rng) -> bool,
    S: Fn(&mut ChaCha8Rng, R, bool) -> R,
 {
    ||| may_decide(trial, false) && after == gene
    ||| may_decide(trial, true) && may_shift(shift, gene, after)
}

/// Gaussian mutation: every gene is, with some chance, moved by a random
/// amount in a random direction.
///
/// The genes are visited in index order. For each gene a fair coin is tossed
/// for the direction, then `trial` decides whether the gene is moved, and
/// only if it is, `shift` is asked for the moved gene. The chance is a matter
/// of `trial` and the amount a matter of `shift`: both compute with reals,
/// which this library leaves to its caller.
#[verifier::reject_recursive_types(R)]
pub struct GaussianMutation<R, T, S> where
    T: Fn(&mut ChaCha8Rng) -> bool,
    S: Fn(&mut ChaCha8Rng, R, bool) -> R,
 {
    trial: T,
    shift: S,
    gene: PhantomData<R>,
}

impl<R, T, S> GaussianMutation<R, T, S> where
    T: Fn(&mut ChaCha8Rng) -> bool,
    S: Fn(&mut ChaCha8Rng, R, bool) -> R,
 {
    /// The function that decides whether a gene is moved.
    pub closed spec fn trial(&self) -> T {
        self.trial
    }

    /// The function that moves a gene.
    pub closed spec fn shift(&self) -> S {
        self.shift
    }

    #[verifier::type_invariant]
    spec fn ready(self) -> bool {
        trial_ready(self.trial) && shift_ready(self.shift)
    }

    /// The mutation that decides by `trial` and moves by `shift`.
    ///
    /// `shift` takes the gene and whether the move is to be downwards, and
    /// returns the moved gene.
    pub fn new(trial: T, shift: S) -> (mutation: Self)
        requires
            trial_ready(trial),
            shift_ready(shift),
        ensures
            mutation.trial() == trial,
            mutation.shift() == shift,
    {
        GaussianMutation { trial, shift, gene: PhantomData }
    }
}

impl<R: Copy, T, S> MutationMethod<R> for GaussianMutation<R, T, S> where
    T: Fn(&mut ChaCha8Rng) -> bool,
    S: Fn(&mut ChaCha8Rng, R, bool) -> R,
 {
    /// Every gene either stays, after a trial that failed, or becomes what
    /// `shift` made of it, told the direction that the coin gave, after a
    /// trial that succeeded. Where the trial cannot succeed nothing changes;
    /// where it cannot fail every gene is shifted, and differs from what it
    /// was if `shift` never returns the gene that it was given. For a genome
    /// without genes nothing is drawn.
    ///
    /// The genes are taken in index order. For each the coin is tossed
    /// first, then the trial is asked, then, only after a trial that
    /// succeeded, the gene is moved; each of these calls finds the generator
    /// as the call before it left it.
    fn mutate(&self, rng: &mut ChaCha8Rng, child: &mut Chromosome<R>)
        ensures
            forall|i: int|
                0 <= i < old(child)@.len() ==> walked(
                    self.trial(),
                    self.shift(),
                    old(child)@[i],
                    #[trigger] final(child)@[i],
                ),
            never_hits(self.trial()) ==> final(child)@ == old(child)@,
            old(child)@.len() == 0 ==> *final(rng) == *old(rng),
            exists|marks: Seq<ChaCha8Rng>|
                {
                    &&& marks.len() == old(child)@.len() + 1
                    &&& marks[0] == *old(rng)
                    &&& marks[old(child)@.len() as int] == *final(rng)
                    &&& forall|i: int|
                        0 <= i < old(child)@.len() ==> walked(
                            self.trial(),
                            self.shift(),
                            old(child)@[i],
                            #[trigger] final(child)@[i],
                        ) && 
exists|coin: &mut ChaCha8Rng, ask: &mut ChaCha8Rng, negative: bool, hit: bool|
                            #![trigger tossed_on(coin, negative), call_ensures(self.trial(), (ask,), hit)]
                            {
                                &&& *coin == marks[i]
                                &&& tossed_on(coin, negative)
                                &&& *ask == *final(coin)
                                &&& call_ensures(self.trial(), (ask,), hit)
                                &&& hit ==> exists|to: &mut ChaCha8Rng|
                                    {
                                        &&& *to == *final(ask)
                                        &&& #[trigger] call_ensures(self.shift(), (to, old(child)@[i], negative), final(child)@[i])
                                        &&& *final(to) == marks[i + 1]
                                    }
                                &&& !hit ==> final(child)@[i] == old(child)@[i] && *final(ask) == marks[i + 1]
                            }
                },
            always_hits(self.trial()) ==> forall|i: int|
                0 <= i < old(child)@.len() ==> may_shift(
                    self.shift(),
                    old(child)@[i],
                    #[trigger] final(child)@[i],
                ),
            always_hits(self.trial()) && always_moves(self.shift()) ==> forall|i: int|
                0 <= i < old(child)@.len() ==> #[trigger] final(child)@[i] != old(child)@[i],
    {
        proof {
            use_type_invariant(self);
        }
        let ghost before = child@;
        let ghost mut marks = seq![*rng];
        let len = child.len();
        let mut i: usize = 0;
        while i < len
            invariant
                marks.len() == i + 1,
                marks[0] == *old(rng),
                marks[i as int] == *rng,
                forall|j: int|
                    0 <= j < i ==> walked(self.trial, self.shift, before[j], #[trigger] child@[j])
                        && 
exists|coin: &mut ChaCha8Rng, ask: &mut ChaCha8Rng, negative: bool, hit: bool|
                            #![trigger tossed_on(coin, negative), call_ensures(self.trial, (ask,), hit)]
                            {
                                &&& *coin == marks[j]
                                &&& tossed_on(coin, negative)
                                &&& *ask == *final(coin)
                                &&& call_ensures(self.trial, (ask,), hit)
                                &&& hit ==> exists|to: &mut ChaCha8Rng|
                                    {
                                        &&& *to == *final(ask)
                                        &&& #[trigger] call_ensures(self.shift, (to, before[j], negative), child@[j])
                                        &&& *final(to) == marks[j + 1]
                                    }
                                &&& !hit ==> child@[j] == before[j] && *final(ask) == marks[j + 1]
                            },
                i <= len,
                len == before.len(),
                child@.len() == len,
                trial_ready(self.trial),
                shift_ready(self.shift),
                forall|j: int| i <= j < len ==> child@[j] == before[j],
                forall|j: int|
                    0 <= j < i ==> walked(self.trial, self.shift, before[j], #[trigger] child@[j]),
                never_hits(self.trial) ==> child@ == before,
                i == 0 ==> *rng == *old(rng),
                always_hits(self.trial) ==> forall|j: int|
                    0 <= j < i ==> may_shift(self.shift, before[j], #[trigger] child@[j]),
            decreases len - i,
        {
            let ghost marked = marks;
            let ghost genes = child@;
            let negative = fair_coin(rng);
            let hit = (self.trial)(rng);
            if hit {
                let gene: R = child[i];
                let moved = (self.shift)(rng, gene, negative);
                child.set(i, moved);
            }
            proof {
                marks = marks.push(*rng);
                assert forall|j: int| 0 <= j < i + 1 implies walked(
                    self.trial,
                    self.shift,
                    before[j],
                    #[trigger] child@[j],
                ) && 
exists|coin: &mut ChaCha8Rng, ask: &mut ChaCha8Rng, negative: bool, hit: bool|
                        #![trigger tossed_on(coin, negative), call_ensures(self.trial, (ask,), hit)]
                        {
                            &&& *coin == marks[j]
                            &&& tossed_on(coin, negative)
                            &&& *ask == *final(coin)
                            &&& call_ensures(self.trial, (ask,), hit)
                            &&& hit ==> exists|to: &mut ChaCha8Rng|
                                {
                                    &&& *to == *final(ask)
                                    &&& #[trigger] call_ensures(self.shift, (to, before[j], negative), child@[j])
                                    &&& *final(to) == marks[j + 1]
                                }
                            &&& !hit ==> child@[j] == before[j] && *final(ask) == marks[j + 1]
                        } by {
                    if j < i {
                        assert(child@[j] == genes[j]);
                        assert(marks[j] == marked[j] && marks[j + 1] == marked[j + 1]);
                        assert(walked(self.trial, self.shift, before[j], genes[j]));
                    } else {
                        assert(marks[j] == marked[j]);
                        assert(marks[j + 1] == *rng);
                        assert(before[j] == genes[j]);
                        assert(walked(self.trial, self.shift, before[j], child@[j]));
                        assert(exists|coin: &mut ChaCha8Rng|
                            *coin == marks[j] && #[trigger] tossed_on(coin, negative));
                    }
                }
            }
            i += 1;
        }
    }
}

/// `method` may be handed `rng` and `child` as they are, and leave them as
/// they are to be in the end.
pub open spec fn mutates<R, M: MutationMethod<R> + ?Sized>(
    method: &M,
    rng: &mut ChaCha8Rng,
    child: &mut Chromosome<R>,
) -> bool {
    call_ensures(M::mutate, (method, rng, child), ())
}

/// Lets `method` mutate `child` with `rng`.
fn mutate_by<R, M: MutationMethod<R> + ?Sized>(
    method: &M,
    rng: &mut ChaCha8Rng,
    child: &mut Chromosome<R>,
)
    ensures
        final(child)@.len() == old(child)@.len(),
        exists|with: &mut ChaCha8Rng, genome: &mut Chromosome<R>|
            {
                &&& *with == *old(rng)
                &&& *genome == *old(child)
                &&& #[trigger] mutates(method, with, genome)
                &&& *final(with) == *final(rng)
                &&& *final(genome) == *final(child)
            },
{
    method.mutate(rng, child);
    // what is known of the call is known as `mutates`
    assert forall|with: &mut ChaCha8Rng, genome: &mut Chromosome<R>| #[trigger]
        call_ensures(M::mutate, (method, with, genome), ()) implies mutates(
        method,
        with,
        genome,
    ) by {}
}

/// A mutation method that is chosen when the program runs.
impl<R> MutationMethod<R> for Box<dyn MutationMethod<R>> {
    /// Hands the generator and the genome to the boxed method: what that
    /// method makes of them is what they are afterwards.
    fn mutate(&self, rng: &mut ChaCha8Rng, child: &mut Chromosome<R>)
        ensures
            exists|with: &mut ChaCha8Rng, genome: &mut Chromosome<R>|
                {
                    &&& *with == *old(rng)
                    &&& *genome == *old(child)
                    &&& #[trigger] mutates::<R, dyn MutationMethod<R>>(&**self, with, genome)
                    &&& *final(with) == *final(rng)
                    &&& *final(genome) == *final(child)
                },
    {
        mutate_by::<R, dyn MutationMethod<R>>(&**self, rng, child)
    }
}

} // verus!
