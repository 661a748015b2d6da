use rand::Rng;
use rand_chacha::ChaCha8Rng;
use vstd::prelude::*;

verus! {

/// The seedable generator that every stochastic operator draws from.
#[verifier::external_type_specification]
#[verifier::external_body]
pub struct ExChaCha8Rng(ChaCha8Rng);

/// One Bernoulli trial with success probability `numerator / denominator`,
/// made by `rand::Rng::gen_ratio`.
///
/// Trusted: the outcome is certain at the two ends of the scale, as the
/// method documents; of every other ratio nothing is claimed. The method
/// panics on a zero denominator and on a ratio above one, which the
/// precondition leaves out.
#[verifier::external_body]
pub(crate) fn ratio_trial(rng: &mut ChaCha8Rng, numerator: u32, denominator: u32) -> (hit: bool)
    requires
        0 < denominator,
        numerator <= denominator,
    ensures
        numerator == denominator ==> hit,
        numerator == 0 ==> !hit,
{
    rng.gen_ratio(numerator, denominator)
}

/// `heads` is an answer that a trial of one in two may give.
pub closed spec fn tossed(heads: bool) -> bool {
    exists|coin: &mut ChaCha8Rng| tossed_on(coin, heads)
}

/// `heads` is the answer that a trial of one in two may give when it is made
/// on `coin`.
pub closed spec fn tossed_on(coin: &mut ChaCha8Rng, heads: bool) -> bool {
    call_ensures(ratio_trial, (coin, 1u32, 2u32), heads)
}

/// Tosses a fair coin: makes one trial of one in two on `rng` and returns
/// its answer. The generator is left as that trial leaves it.
pub(crate) fn fair_coin(rng: &mut ChaCha8Rng) -> (heads: bool)
    ensures
        tossed(heads),
        exists|coin: &mut ChaCha8Rng|
            {
                &&& *coin == *old(rng)
                &&& #[trigger] tossed_on(coin, heads)
                &&& *final(coin) == *final(rng)
            },
{
    let heads = ratio_trial(rng, 1, 2);
    // what is known of the call is known as `tossed_on`
    assert forall|coin: &mut ChaCha8Rng| #[trigger]
        call_ensures(ratio_trial, (coin, 1u32, 2u32), heads) implies tossed_on(coin, heads) by {}
    heads
}

/// Tosses `count` fair coins, one after the other, and returns their
/// answers in that order: every toss finds the generator as the toss before
/// it left it.
pub(crate) fn fair_coins(rng: &mut ChaCha8Rng, count: usize) -> (tosses: Vec<bool>)
    ensures
        tosses@.len() == count,
        exists|states: Seq<ChaCha8Rng>|
            {
                &&& states.len() == count + 1
                &&& states[0] == *old(rng)
                &&& states[count as int] == *final(rng)
                &&& forall|i: int|
                    0 <= i < count ==> tossed(#[trigger] tosses@[i]) && exists|coin: &mut ChaCha8Rng|
                        {
                            &&& *coin == states[i]
                            &&& #[trigger] tossed_on(coin, tosses@[i])
                            &&& *final(coin) == states[i + 1]
                        }
            },
{
    let ghost mut states = seq![*rng];
    let mut tosses: Vec<bool> = Vec::new();
    let mut done: usize = 0;
    while done < count
        invariant
            done <= count,
            tosses@.len() == done,
            states.len() == done + 1,
            states[0] == *old(rng),
            states[done as int] == *rng,
            forall|i: int|
                0 <= i < done ==> tossed(#[trigger] tosses@[i]) && exists|coin: &mut ChaCha8Rng|
                    {
                        &&& *coin == states[i]
                        &&& #[trigger] tossed_on(coin, tosses@[i])
                        &&& *final(coin) == states[i + 1]
                    },
        decreases count - done,
    {
        let ghost before = states;
        let ghost so_far = tosses@;
        let heads = fair_coin(rng);
        tosses.push(heads);
        proof {
            states = states.push(*rng);
            assert forall|i: int| 0 <= i < done + 1 implies tossed(#[trigger] tosses@[i]) && exists|
                coin: &mut ChaCha8Rng,
            |
                {
                    &&& *coin == states[i]
                    &&& #[trigger] tossed_on(coin, tosses@[i])
                    &&& *final(coin) == states[i + 1]
                } by {
                if i < done {
                    assert(tosses@[i] == so_far[i]);
                    assert(states[i] == before[i] && states[i + 1] == before[i + 1]);
                }
            }
        }
        done += 1;
    }
    tosses
}

} // verus!
