pub mod action;
pub mod featurizable;
pub mod obs;
pub mod random;
pub mod rogue_net;
pub mod training;

use crate::agent::action::Action;
use crate::agent::obs::Obs;
use crate::agent::random::RandomAgent;
use crate::sync::receive;
use crossbeam_channel::Receiver;
use std::marker::PhantomData;
use std::sync::atomic::{AtomicUsize, Ordering};
use std::sync::Arc;
use vstd::prelude::*;

verus! {

/// What an agent did wrong in its exchange with the environment.
#[derive(Debug, Clone, Copy, PartialEq, Eq, Structural)]
pub enum AgentError {
    /// The agent waits for an action while some, but not all, of the agents
    /// that share its environment have sent their observation of the round:
    /// the action cannot arrive before the others are asked.
    OutOfTurn,
}

/// What the user is told of an agent that waits out of turn.
pub const OUT_OF_TURN: &'static str =
    "TrainAgent::act called before all agents have received observations. This is not allowed. If you have multiple agents, call the `act_async` on every agent before awaiting any actions.";

impl AgentError {
    /// The diagnostic for the user.
    pub fn message(&self) -> (text: String)
        ensures
            text@ == OUT_OF_TURN@,
    {
        OUT_OF_TURN.to_owned()
    }
}

/// Whether an agent that finds `remaining` observations outstanding in its
/// round may not wait for an action: some of the `agent_count` agents have
/// sent theirs and some have not.
pub open spec fn spec_out_of_turn(remaining: nat, agent_count: nat) -> bool {
    remaining != 0 && remaining != agent_count
}

/// Whether an agent that finds `remaining` observations outstanding in its
/// round may not wait for an action.
pub fn out_of_turn(remaining: usize, agent_count: usize) -> (refused: bool)
    ensures
        refused == spec_out_of_turn(remaining as nat, agent_count as nat),
{
    remaining != 0 && remaining != agent_count
}

/// What the counter of a round holds when `sent` of the `agent_count` agents
/// have sent their observation and `received` of them have received their
/// action: each observation takes one off, and the first action puts the
/// full number back.
pub open spec fn outstanding(agent_count: nat, sent: nat, received: nat) -> int {
    if received > 0 {
        agent_count as int
    } else {
        agent_count - sent
    }
}

/// An agent that waits for its action while some of the others have yet to
/// send their observation is out of turn.
pub proof fn lemma_early_wait_is_refused(agent_count: nat, sent: nat)
    requires
        0 < sent < agent_count,
    ensures
        spec_out_of_turn(outstanding(agent_count, sent, 0) as nat, agent_count),
{
}

/// Once every agent has sent its observation, none that waits for its action
/// is out of turn, however many of the others have received theirs already.
pub proof fn lemma_wait_after_all_sent_is_allowed(agent_count: nat, received: nat)
    requires
        received <= agent_count,
    ensures
        !spec_out_of_turn(outstanding(agent_count, agent_count, received) as nat, agent_count),
{
}

/// Agents are given observations and return actions.
pub trait Agent<F> {
    /// Returns an action for the given observation: an index below
    /// `num_actions`, or nothing where no action is to be had.
    fn act_dyn(&mut self, action: &str, num_actions: u64, obs: &Obs<F>) -> Result<
        Option<u64>,
        AgentError,
    >;

    /// Returns a receiver that can be blocked on to receive an action for the
    /// given observation.
    fn act_async_dyn(&mut self, action: &str, num_actions: u64, obs: &Obs<F>) -> ActionReceiver<
        u64,
    >;

    /// Indicates that the agent has reached the end of the episode.
    fn game_over(&mut self, obs: &Obs<F>);
}

/// The typed forms of [`Agent::act_dyn`] and [`Agent::act_async_dyn`].
pub trait AgentOps<F> {
    /// Returns an action for the given observation: the choice that
    /// `A::from_u64` makes of the index that the agent gives.
    fn act<'a, A: Action<'a>>(&mut self, obs: &Obs<F>) -> Result<Option<A>, AgentError>;

    /// Returns a receiver that can be blocked on to receive an action for the
    /// given observation.
    fn act_async<'a, A: Action<'a>>(&mut self, obs: &Obs<F>) -> ActionReceiver<A>;
}

/// Whether `action` is the typed form of what an agent gave as `raw`: the
/// choice that `A::from_u64` makes of the index, no action for none, and the
/// same error.
pub open spec fn is_typed<'a, A: Action<'a>>(
    raw: Result<Option<u64>, AgentError>,
    action: Result<Option<A>, AgentError>,
) -> bool {
    match (raw, action) {
        (Ok(Some(index)), Ok(Some(a))) => call_ensures(A::from_u64, (index,), a),
        (Ok(None), Ok(None)) => true,
        (Err(e), Err(f)) => e == f,
        _ => false,
    }
}

/// The typed form of what an agent gave: the choice that `A::from_u64` makes
/// of the index.
pub fn typed_action<'a, A: Action<'a>>(raw: Result<Option<u64>, AgentError>) -> (action: Result<
    Option<A>,
    AgentError,
>)
    ensures
        is_typed(raw, action),
{
    match raw {
        Ok(Some(index)) => Ok(Some(A::from_u64(index))),
        Ok(None) => Ok(None),
        Err(e) => Err(e),
    }
}

impl<F, T: Agent<F> + ?Sized> AgentOps<F> for T {
    fn act<'a, A: Action<'a>>(&mut self, obs: &Obs<F>) -> (action: Result<Option<A>, AgentError>)
        ensures
            exists|agent: &mut T, name: &'a str, n: u64, raw: Result<Option<u64>, AgentError>|
                {
                    &&& call_ensures(A::name, (), name)
                    &&& call_ensures(A::num_actions, (), n)
                    &&& #[trigger] call_ensures(T::act_dyn, (agent, name, n, obs), raw)
                    &&& is_typed(raw, action)
                },
    {
        let name = A::name();
        let n = A::num_actions();
        let raw = self.act_dyn(name, n, obs);
        typed_action(raw)
    }

    fn act_async<'a, A: Action<'a>>(&mut self, obs: &Obs<F>) -> (receiver: ActionReceiver<A>)
        ensures
            exists|agent: &mut T, name: &'a str, n: u64, raw: ActionReceiver<u64>|
                {
                    &&& call_ensures(A::name, (), name)
                    &&& call_ensures(A::num_actions, (), n)
                    &&& #[trigger] call_ensures(T::act_async_dyn, (agent, name, n, obs), raw)
                    &&& receiver.untyped() == raw.untyped()
                },
    {
        let name = A::name();
        let n = A::num_actions();
        let raw = self.act_async_dyn(name, n, obs);
        raw.typed()
    }
}

enum InnerActionReceiver<A> {
    Receiver {
        receiver: Receiver<u64>,
        observations_remaining: Arc<AtomicUsize>,
        agent_count: usize,
        phantom: PhantomData<A>,
    },
    Value(u64),
    Nothing,
}

/// A channel for receiving an agent action returned by
/// [`AgentOps::act_async`] or [`Agent::act_async_dyn`].
#[verifier::reject_recursive_types(A)]
pub struct ActionReceiver<A> {
    inner: InnerActionReceiver<A>,
}

impl<A> ActionReceiver<A> {
    /// What the receiver will hand out, where that is settled already and
    /// need not be waited for: an action, or none.
    pub closed spec fn settled(&self) -> Option<Option<u64>> {
        match self.inner {
            InnerActionReceiver::Value(v) => Some(Some(v)),
            InnerActionReceiver::Nothing => Some(None),
            _ => None,
        }
    }

    /// The receiver without the type of its action: what it waits on, or
    /// what it holds.
    pub closed spec fn untyped(&self) -> ActionReceiver<u64> {
        ActionReceiver {
            inner: match self.inner {
                InnerActionReceiver::Receiver {
                    receiver,
                    observations_remaining,
                    agent_count,
                    phantom,
                } => InnerActionReceiver::Receiver {
                    receiver,
                    observations_remaining,
                    agent_count,
                    phantom: PhantomData,
                },
                InnerActionReceiver::Value(v) => InnerActionReceiver::Value(v),
                InnerActionReceiver::Nothing => InnerActionReceiver::Nothing,
            },
        }
    }

    /// A receiver that holds its action already.
    pub fn value(val: u64) -> (receiver: ActionReceiver<A>)
        ensures
            receiver.settled() == Some(Some(val)),
    {
        ActionReceiver { inner: InnerActionReceiver::Value(val) }
    }

    /// A receiver that will hand out no action.
    pub fn nothing() -> (receiver: ActionReceiver<A>)
        ensures
            receiver.settled() == Some(None::<u64>),
    {
        ActionReceiver { inner: InnerActionReceiver::Nothing }
    }

    /// A receiver that waits on `receiver` for the action of a round whose
    /// outstanding observations `observations_remaining` counts, among
    /// `agent_count` agents.
    pub fn pending(
        receiver: Receiver<u64>,
        observations_remaining: Arc<AtomicUsize>,
        agent_count: usize,
    ) -> (pending: ActionReceiver<A>)
        ensures
            pending.settled() is None,
    {
        ActionReceiver {
            inner: InnerActionReceiver::Receiver {
                receiver,
                observations_remaining,
                agent_count,
                phantom: PhantomData,
            },
        }
    }

    /// The same receiver for another type of action.
    pub fn typed<B>(self) -> (receiver: ActionReceiver<B>)
        ensures
            receiver.settled() == self.settled(),
            receiver.untyped() == self.untyped(),
    {
        match self.inner {
            InnerActionReceiver::Receiver {
                receiver,
                observations_remaining,
                agent_count,
                phantom: _,
            } => ActionReceiver {
                inner: InnerActionReceiver::Receiver {
                    receiver,
                    observations_remaining,
                    agent_count,
                    phantom: PhantomData,
                },
            },
            InnerActionReceiver::Value(v) => ActionReceiver { inner: InnerActionReceiver::Value(v) },
            InnerActionReceiver::Nothing => ActionReceiver { inner: InnerActionReceiver::Nothing },
        }
    }

    /// Blocks on the receiver until an action is received. What is settled
    /// already is handed out at once. Else the round's counter is read
    /// first, and the wait is refused where the agent is out of turn; after
    /// the wait the counter is put back to the number of agents. A closed
    /// channel gives no action.
    pub fn rcv_raw(self) -> (action: Result<Option<u64>, AgentError>)
        ensures
            self.settled() matches Some(a) ==> action == Ok::<Option<u64>, AgentError>(a),
            action is Err ==> action == Err::<Option<u64>, AgentError>(AgentError::OutOfTurn),
    {
        match self.inner {
            InnerActionReceiver::Receiver {
                receiver,
                observations_remaining,
                agent_count,
                phantom: _,
            } => {
                let remaining = observations_remaining.load(Ordering::SeqCst);
                if out_of_turn(remaining, agent_count) {
                    return Err(AgentError::OutOfTurn);
                }
                let act = receive(&receiver);
                observations_remaining.store(agent_count, Ordering::SeqCst);
                Ok(act)
            },
            InnerActionReceiver::Value(value) => Ok(Some(value)),
            InnerActionReceiver::Nothing => Ok(None),
        }
    }

    /// Blocks on the receiver until an action is received.
    pub fn rcv<'a>(self) -> (action: Result<Option<A>, AgentError>) where A: Action<'a>
        ensures
            self.settled() matches Some(a) ==> action matches Ok(b) && (a is Some <==> b is Some),
            action is Err ==> action == Err::<Option<A>, AgentError>(AgentError::OutOfTurn),
    {
        match self.rcv_raw() {
            Ok(Some(index)) => Ok(Some(A::from_u64(index))),
            Ok(None) => Ok(None),
            Err(e) => Err(e),
        }
    }
}

/// Returns a boxed [`RandomAgent`].
pub fn random<F>() -> Box<dyn Agent<F>> {
    Box::new(RandomAgent::from_seed(0))
}

/// Returns a boxed [`RandomAgent`] with the given seed.
pub fn random_seeded<F>(seed: u64) -> Box<dyn Agent<F>> {
    Box::new(RandomAgent::from_seed(seed))
}

} // verus!
