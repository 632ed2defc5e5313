use crate::agent::obs::Obs;
use crate::agent::{ActionReceiver, Agent, AgentError};
use rand::rngs::SmallRng;
use rand::{Rng, SeedableRng};
use vstd::prelude::*;

verus! {

/// `SmallRng` of rand, opaque here: a small, fast generator of pseudo-random
/// numbers.
#[verifier::external_type_specification]
#[verifier::external_body]
pub struct ExSmallRng(SmallRng);

/// Calls `SeedableRng::seed_from_u64` of rand for `SmallRng`: a generator
/// made from the seed. Nothing is claimed of it: it is opaque here.
#[verifier::external_body]
fn seeded(seed: u64) -> SmallRng {
    SmallRng::seed_from_u64(seed)
}

/// Calls `Rng::gen_range` of rand with the range from 0 up to, not
/// including, `bound`: a value in that range. The call panics on an empty
/// range, which the precondition leaves out. Which value comes depends on the
/// generator's state.
#[verifier::external_body]
fn below(rng: &mut SmallRng, bound: u64) -> (value: u64)
    requires
        bound > 0,
    ensures
        value < bound,
{
    rng.gen_range(0..bound)
}

/// Agent that samples all actions uniformly at random.
pub struct RandomAgent {
    rng: SmallRng,
}

impl RandomAgent {
    /// Creates a new `RandomAgent` from a seed.
    pub fn from_seed(seed: u64) -> Self {
        RandomAgent { rng: seeded(seed) }
    }

    /// An index below `num_actions`, or nothing where there is no action to
    /// choose from.
    pub fn pick(&mut self, num_actions: u64) -> (choice: Option<u64>)
        ensures
            match choice {
                Some(index) => index < num_actions,
                None => num_actions == 0,
            },
    {
        if num_actions == 0 {
            None
        } else {
            Some(below(&mut self.rng, num_actions))
        }
    }
}

impl<F> Agent<F> for RandomAgent {
    fn act_dyn(&mut self, _action: &str, num_actions: u64, _obs: &Obs<F>) -> (action: Result<
        Option<u64>,
        AgentError,
    >)
        ensures
            match action {
                Ok(Some(index)) => index < num_actions,
                Ok(None) => num_actions == 0,
                Err(_) => false,
            },
    {
        Ok(self.pick(num_actions))
    }

    fn act_async_dyn(&mut self, _action: &str, num_actions: u64, _obs: &Obs<F>) -> (receiver:
        ActionReceiver<u64>)
        ensures
            match receiver.settled() {
                Some(Some(index)) => index < num_actions,
                Some(None) => num_actions == 0,
                None => false,
            },
    {
        match self.pick(num_actions) {
            Some(index) => ActionReceiver::value(index),
            None => ActionReceiver::nothing(),
        }
    }

    fn game_over(&mut self, _obs: &Obs<F>) {
    }
}

impl Default for RandomAgent {
    fn default() -> Self {
        RandomAgent::from_seed(0)
    }
}

} // verus!
