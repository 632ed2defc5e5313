use crate::agent::featurizable::Featurizable;
use crate::agent::obs::Obs;
use crate::agent::{out_of_turn, ActionReceiver, Agent, AgentError};
use crate::low_level::env::{
    metrics_view, names_view, Action, ActionMask, ActionMaskView, ActionSpace, ActionSpaceView,
    ActionType, ActionView, CompactFeatures, Entity, EntityId, ObsSpace, Observation,
};
use crate::low_level::worker::Environment;
use crate::sync::{channel, receive, send, share};
use core::ops::Sub;
use crossbeam_channel::{Receiver, Sender};
use std::sync::atomic::{AtomicUsize, Ordering};
use std::sync::Arc;
use vstd::prelude::*;
use vstd::std_specs::ops::SubSpec;

verus! {

/// Collects the entity types and action types of a training environment
/// before it is built. No name is registered twice.
#[derive(Debug)]
pub struct TrainEnvBuilder {
    entities: Vec<(String, Entity)>,
    actions: Vec<(String, ActionSpace)>,
}

impl TrainEnvBuilder {
    /// The registered entity types, in registration order: name and feature names.
    pub closed spec fn entities(&self) -> Seq<(Seq<char>, Seq<Seq<char>>)> {
        Seq::new(self.entities@.len(), |i: int| (self.entities@[i].0@, self.entities@[i].1@))
    }

    /// The registered action types, in registration order: name and space.
    pub closed spec fn actions(&self) -> Seq<(Seq<char>, ActionSpaceView)> {
        Seq::new(self.actions@.len(), |i: int| (self.actions@[i].0@, self.actions@[i].1@))
    }

    /// Holds of every builder that exists at run time: no entity type and no
    /// action type is registered twice.
    #[verifier::type_invariant]
    pub closed spec fn well_formed(&self) -> bool {
        &&& forall|i: int, j: int|
            0 <= i < j < self.entities@.len() ==> (#[trigger] self.entities@[i]).0@ != (
            #[trigger] self.entities@[j]).0@
        &&& forall|i: int, j: int|
            0 <= i < j < self.actions@.len() ==> (#[trigger] self.actions@[i]).0@ != (
            #[trigger] self.actions@[j]).0@
    }

    /// No name is registered twice: two registered entity types, or two
    /// registered action types, have different names.
    pub proof fn lemma_names_distinct(&self)
        requires
            self.well_formed(),
        ensures
            forall|i: int, j: int|
                0 <= i < j < self.entities().len() ==> (#[trigger] self.entities()[i]).0 != (
                #[trigger] self.entities()[j]).0,
            forall|i: int, j: int|
                0 <= i < j < self.actions().len() ==> (#[trigger] self.actions()[i]).0 != (
                #[trigger] self.actions()[j]).0,
    {
        assert forall|i: int, j: int| 0 <= i < j < self.entities().len() implies (
        #[trigger] self.entities()[i]).0 != (#[trigger] self.entities()[j]).0 by {
            assert(self.entities@[i].0@ != self.entities@[j].0@);
        }
        assert forall|i: int, j: int| 0 <= i < j < self.actions().len() implies (
        #[trigger] self.actions()[i]).0 != (#[trigger] self.actions()[j]).0 by {
            assert(self.actions@[i].0@ != self.actions@[j].0@);
        }
    }

    /// Whether an entity type of this name is registered.
    pub open spec fn spec_has_entity(&self, name: Seq<char>) -> bool {
        exists|i: int| 0 <= i < self.entities().len() && #[trigger] self.entities()[i].0 == name
    }

    /// Whether an action type of this name is registered.
    pub open spec fn spec_has_action(&self, name: Seq<char>) -> bool {
        exists|i: int| 0 <= i < self.actions().len() && #[trigger] self.actions()[i].0 == name
    }

    /// A builder with nothing registered.
    pub fn new() -> (b: Self)
        ensures
            b.entities() == Seq::<(Seq<char>, Seq<Seq<char>>)>::empty(),
            b.actions() == Seq::<(Seq<char>, ActionSpaceView)>::empty(),
    {
        let b = TrainEnvBuilder { entities: Vec::new(), actions: Vec::new() };
        assert(b.entities() =~= Seq::<(Seq<char>, Seq<Seq<char>>)>::empty());
        assert(b.actions() =~= Seq::<(Seq<char>, ActionSpaceView)>::empty());
        b
    }

    /// Whether an entity type of this name is registered.
    pub fn has_entity(&self, name: &str) -> (found: bool)
        ensures
            found == self.spec_has_entity(name@),
    {
        let wanted = name.to_owned();
        let mut i: usize = 0;
        while i < self.entities.len()
            invariant
                i <= self.entities.len(),
                wanted@ == name@,
                forall|k: int| 0 <= k < i ==> self.entities()[k].0 != name@,
            decreases self.entities.len() - i,
        {
            if self.entities[i].0 == wanted {
                assert(self.entities()[i as int].0 == name@);
                return true;
            }
            i += 1;
        }
        false
    }

    /// Whether an action type of this name is registered.
    pub fn has_action(&self, name: &str) -> (found: bool)
        ensures
            found == self.spec_has_action(name@),
    {
        let wanted = name.to_owned();
        let mut i: usize = 0;
        while i < self.actions.len()
            invariant
                i <= self.actions.len(),
                wanted@ == name@,
                forall|k: int| 0 <= k < i ==> self.actions()[k].0 != name@,
            decreases self.actions.len() - i,
        {
            if self.actions[i].0 == wanted {
                assert(self.actions()[i as int].0 == name@);
                return true;
            }
            i += 1;
        }
        false
    }

    /// Registers the type of an observable entity under the name that
    /// `E::name()` gives, which must not be taken, with the feature names that
    /// `E::feature_names()` gives.
    pub fn entity<E: Featurizable>(self) -> (out: Self)
        requires
            forall|n: &'static str|
                call_ensures(E::name, (), n) ==> !self.spec_has_entity(n@),
        ensures
            exists|n: &'static str, f: Vec<String>|
                call_ensures(E::name, (), n) && call_ensures(E::feature_names, (), f)
                    && out.entities() == self.entities().push((n@, names_view(f@))),
            out.actions() == self.actions(),
    {
        proof {
            use_type_invariant(&self);
        }
        let features = E::feature_names();
        let name = E::name();
        let ghost pushed = (name@, names_view(features@));
        let ghost before = self;
        let TrainEnvBuilder { entities: mut entities, actions } = self;
        assert forall|i: int| 0 <= i < entities@.len() implies (#[trigger] entities@[i]).0@
            != name@ by {
            assert(before.entities()[i].0 == entities@[i].0@);
        }
        entities.push((name.to_owned(), Entity { features }));
        let out = TrainEnvBuilder { entities, actions };
        assert(out.entities() =~= before.entities().push(pushed));
        assert(out.actions() =~= before.actions());
        out
    }

    /// Registers the type of an action under the name that `A::name()` gives,
    /// which must not be taken. Its space is categorical, with the labels that
    /// `A::labels()` gives as choices.
    pub fn action<'a, A: crate::agent::action::Action<'a>>(self) -> (out: Self)
        requires
            forall|n: &'a str| call_ensures(A::name, (), n) ==> !self.spec_has_action(n@),
        ensures
            out.entities() == self.entities(),
            exists|n: &'a str, l: Vec<String>|
                call_ensures(A::name, (), n) && call_ensures(A::labels, (), l) && out.actions()
                    == self.actions().push(
                    (n@, ActionSpaceView::Categorical { choices: names_view(l@) }),
                ),
    {
        proof {
            use_type_invariant(&self);
        }
        let choices = A::labels();
        let name = A::name();
        let ghost pushed = (name@, ActionSpaceView::Categorical { choices: names_view(choices@) });
        let ghost before = self;
        let TrainEnvBuilder { entities, actions: mut actions } = self;
        assert forall|i: int| 0 <= i < actions@.len() implies (#[trigger] actions@[i]).0@
            != name@ by {
            assert(before.actions()[i].0 == actions@[i].0@);
        }
        actions.push((name.to_owned(), ActionSpace::Categorical { choices }));
        let out = TrainEnvBuilder { entities, actions };
        assert(out.actions() =~= before.actions().push(pushed));
        assert(out.entities() =~= before.entities());
        out
    }

    /// The observation space that the registered entity types make up.
    pub fn obs_space(&self) -> (space: ObsSpace)
        ensures
            space@ == self.entities(),
    {
        let mut entities: Vec<(String, Entity)> = Vec::new();
        let mut i: usize = 0;
        while i < self.entities.len()
            invariant
                i <= self.entities.len(),
                entities@.len() == i,
                forall|k: int|
                    0 <= k < i ==> entities@[k].0@ == self.entities@[k].0@ && entities@[k].1@
                        == self.entities@[k].1@,
            decreases self.entities.len() - i,
        {
            entities.push((self.entities[i].0.clone(), self.entities[i].1.clone()));
            i += 1;
        }
        let space = ObsSpace { entities };
        assert(space@ =~= self.entities());
        space
    }

    /// The registered action types with their spaces.
    pub fn action_space(&self) -> (space: Vec<(String, ActionSpace)>)
        ensures
            space@.len() == self.actions().len(),
            forall|k: int|
                0 <= k < space@.len() ==> (#[trigger] space@[k]).0@ == self.actions()[k].0
                    && space@[k].1@ == self.actions()[k].1,
    {
        let mut space: Vec<(String, ActionSpace)> = Vec::new();
        let mut i: usize = 0;
        while i < self.actions.len()
            invariant
                i <= self.actions.len(),
                space@.len() == i,
                forall|k: int|
                    0 <= k < i ==> space@[k].0@ == self.actions@[k].0@ && space@[k].1@
                        == self.actions@[k].1@,
            decreases self.actions.len() - i,
        {
            space.push((self.actions[i].0.clone(), self.actions[i].1.clone()));
            i += 1;
        }
        space
    }
}

/// The number of messages that a channel between an agent and its
/// environment holds: the one observation, or the one action, of a step.
pub const BRIDGE_CAPACITY: usize = 1;

/// The number of entities that an observation holds of one declared type:
/// none where it holds none of that name.
pub open spec fn packed_count<F>(obs: &Obs<F>, name: Seq<char>) -> nat {
    match obs.entity(name) {
        Some(e) => e.num_entities,
        None => 0,
    }
}

/// The feature rows that an observation holds of one declared type: none
/// where it holds none of that name.
pub open spec fn packed_rows<F>(obs: &Obs<F>, name: Seq<char>) -> Seq<F> {
    match obs.entity(name) {
        Some(e) => e.features,
        None => Seq::empty(),
    }
}

/// The feature rows that an observation holds of the first `upto` declared
/// types, end to end in the order of the declaration.
pub open spec fn packed_data<F>(names: Seq<Seq<char>>, obs: &Obs<F>, upto: int) -> Seq<F>
    decreases upto,
{
    if upto <= 0 {
        Seq::empty()
    } else {
        packed_data(names, obs, upto - 1) + packed_rows(obs, names[upto - 1])
    }
}

/// Lays the entities of an observation out for the declared entity types, in
/// the order of the declaration: one count per type, and the feature rows end
/// to end. A declared type that the observation does not hold counts zero;
/// what the observation holds of undeclared types is left out.
pub fn pack_entities<F: Copy>(entity_names: &Vec<String>, obs: &Obs<F>) -> (features:
    CompactFeatures<F>)
    ensures
        features.counts@.len() == entity_names@.len(),
        forall|i: int|
            0 <= i < entity_names@.len() ==> #[trigger] features.counts@[i] == packed_count(
                obs,
                entity_names@[i]@,
            ),
        features.data@ == packed_data(names_view(entity_names@), obs, entity_names@.len() as int),
{
    let mut data: Vec<F> = Vec::new();
    let mut counts: Vec<usize> = Vec::new();
    let mut i: usize = 0;
    while i < entity_names.len()
        invariant
            i <= entity_names@.len(),
            counts@.len() == i,
            forall|k: int|
                0 <= k < i ==> #[trigger] counts@[k] == packed_count(obs, entity_names@[k]@),
            data@ == packed_data(names_view(entity_names@), obs, i as int),
        decreases entity_names.len() - i,
    {
        assert(names_view(entity_names@)[i as int] == entity_names@[i as int]@);
        match obs.get(entity_names[i].as_str()) {
            Some(e) => {
                let mut k: usize = 0;
                let ghost before = data@;
                while k < e.features.len()
                    invariant
                        k <= e.features@.len(),
                        data@ == before + e.features@.take(k as int),
                    decreases e.features.len() - k,
                {
                    data.push(e.features[k]);
                    assert(e.features@.take(k as int + 1) =~= e.features@.take(k as int).push(
                        e.features@[k as int],
                    ));
                    k += 1;
                }
                assert(e.features@.take(e.features@.len() as int) =~= e.features@);
                counts.push(e.num_entities);
            },
            None => {
                counts.push(0);
                assert(data@ + Seq::<F>::empty() =~= data@);
            },
        }
        i += 1;
    }
    CompactFeatures { counts, data }
}

/// A copy of named metric values.
pub fn copy_metrics<F: Copy>(metrics: &Vec<(String, F)>) -> (out: Vec<(String, F)>)
    ensures
        metrics_view(out@) == metrics_view(metrics@),
{
    let mut out: Vec<(String, F)> = Vec::new();
    let mut i: usize = 0;
    while i < metrics.len()
        invariant
            i <= metrics@.len(),
            out@.len() == i,
            forall|k: int|
                0 <= k < i ==> (#[trigger] out@[k]).0@ == metrics@[k].0@ && out@[k].1
                    == metrics@[k].1,
        decreases metrics.len() - i,
    {
        out.push((metrics[i].0.clone(), metrics[i].1));
        i += 1;
    }
    assert(metrics_view(out@) =~= metrics_view(metrics@));
    out
}

/// Whether any score can be taken off any other: subtraction has no
/// precondition on the scores' type.
pub open spec fn always_subtracts<F: Sub<Output = F>>() -> bool {
    forall|a: F, b: F| #[trigger] a.sub_req(b)
}

/// The mask of a training agent's observation: one actor, with the id 0, and
/// every choice open.
pub open spec fn single_actor_mask() -> ActionMaskView {
    ActionMaskView::DenseCategorical { actors: seq![0u64], mask: None }
}

/// The observation that a training agent sends for one step: the entities
/// laid out for the declared types, one action type with the agent as its
/// only actor, and as reward the score less the score of the step before
/// (less itself at the first step of an episode).
pub fn step_observation<F: Copy + Sub<Output = F>>(
    entity_names: &Vec<String>,
    previous: Option<F>,
    obs: &Obs<F>,
) -> (out: Observation<F>)
    requires
        always_subtracts::<F>(),
    ensures
        out.features.counts@.len() == entity_names@.len(),
        forall|i: int|
            0 <= i < entity_names@.len() ==> #[trigger] out.features.counts@[i] == packed_count(
                obs,
                entity_names@[i]@,
            ),
        out.features.data@ == packed_data(
            names_view(entity_names@),
            obs,
            entity_names@.len() as int,
        ),
        out@.ids == seq![None::<Seq<EntityId>>],
        out@.actions == seq![Some(single_actor_mask())],
        out.done == obs.spec_done(),
        call_ensures(
            F::sub,
            (
                obs.spec_score(),
                match previous {
                    Some(p) => p,
                    None => obs.spec_score(),
                },
            ),
            out.reward,
        ),
        out@.metrics == obs.metric_list(),
{
    let features = pack_entities(entity_names, obs);
    let last_score = match previous {
        Some(p) => p,
        None => obs.score(),
    };
    let mut actors: Vec<EntityId> = Vec::new();
    actors.push(0);
    let mut ids: Vec<Option<Vec<EntityId>>> = Vec::new();
    ids.push(None);
    let mut actions: Vec<Option<ActionMask>> = Vec::new();
    actions.push(Some(ActionMask::DenseCategorical { actors, mask: None }));
    let out = Observation {
        features,
        ids,
        actions,
        done: obs.done(),
        reward: obs.score() - last_score,
        metrics: copy_metrics(obs.metrics()),
    };
    assert(out@.ids =~= seq![None::<Seq<EntityId>>]);
    assert(out.actions@[0]->Some_0@ =~= single_actor_mask());
    assert(out@.actions =~= seq![Some(single_actor_mask())]);
    out
}

/// The observation that a training agent sends at the end of an episode: no
/// entity of any of the `entity_count` declared types, no action to take,
/// `done`, and as reward the final score less the score of the step before
/// (less zero where there was none).
pub fn terminal_observation<F: Copy + Default + Sub<Output = F>>(
    entity_count: usize,
    previous: Option<F>,
    obs: &Obs<F>,
) -> (out: Observation<F>)
    requires
        always_subtracts::<F>(),
    ensures
        out.features.counts@ == Seq::new(entity_count as nat, |i: int| 0usize),
        out.features.data@ == Seq::<F>::empty(),
        out@.ids == seq![None::<Seq<EntityId>>],
        out@.actions == seq![None::<ActionMaskView>],
        out.done,
        match previous {
            Some(p) => call_ensures(F::sub, (obs.spec_score(), p), out.reward),
            None => exists|zero: F|
                call_ensures(F::default, (), zero) && call_ensures(
                    F::sub,
                    (obs.spec_score(), zero),
                    out.reward,
                ),
        },
        out@.metrics == obs.metric_list(),
{
    let mut counts: Vec<usize> = Vec::new();
    let mut i: usize = 0;
    while i < entity_count
        invariant
            i <= entity_count,
            counts@.len() == i,
            forall|k: int| 0 <= k < i ==> counts@[k] == 0,
        decreases entity_count - i,
    {
        counts.push(0);
        i += 1;
    }
    assert(counts@ =~= Seq::new(entity_count as nat, |i: int| 0usize));
    let baseline = match previous {
        Some(p) => p,
        None => F::default(),
    };
    let mut ids: Vec<Option<Vec<EntityId>>> = Vec::new();
    ids.push(None);
    let mut actions: Vec<Option<ActionMask>> = Vec::new();
    actions.push(None);
    let out = Observation {
        features: CompactFeatures { counts, data: Vec::new() },
        ids,
        actions,
        done: true,
        reward: obs.score() - baseline,
        metrics: copy_metrics(obs.metrics()),
    };
    assert(out@.ids =~= seq![None::<Seq<EntityId>>]);
    assert(out@.actions =~= seq![None::<ActionMaskView>]);
    out
}

/// Used during training to interface with an external agent implementation:
/// sends each observation to the environment's side of the bridge and waits
/// there for the action. The agents that share one environment share the two
/// counters of outstanding observations, which they use in turn, round by
/// round.
#[verifier::reject_recursive_types(F)]
pub struct TrainAgent<F: Copy + Default + Sub<Output = F>> {
    action: Receiver<u64>,
    observation: Sender<Observation<F>>,
    entity_names: Vec<String>,
    score: Option<F>,
    obs_remaining: [Arc<AtomicUsize>; 2],
    iremaining: usize,
    agent_count: usize,
}

/// What a training agent is, seen from outside.
pub struct TrainAgentView<F> {
    /// The declared entity types, in order.
    pub entity_names: Seq<Seq<char>>,
    /// The score of the last step of the running episode, if it has one.
    pub score: Option<F>,
    /// Which of the two counters is in use: 0 or 1.
    pub parity: nat,
    /// The number of agents that share the environment.
    pub agent_count: nat,
}

impl<F: Copy + Default + Sub<Output = F>> View for TrainAgent<F> {
    type V = TrainAgentView<F>;

    closed spec fn view(&self) -> TrainAgentView<F> {
        TrainAgentView {
            entity_names: names_view(self.entity_names@),
            score: self.score,
            parity: self.iremaining as nat,
            agent_count: self.agent_count as nat,
        }
    }
}

impl<F: Copy + Default + Sub<Output = F>> TrainAgent<F> {
    /// Holds of every agent that exists at run time.
    #[verifier::type_invariant]
    pub closed spec fn well_formed(&self) -> bool {
        self.iremaining < 2 && always_subtracts::<F>()
    }

    /// An agent on the given ends of the bridge, at the start of an episode
    /// and of a round that uses the first of the two counters.
    pub fn new(
        action: Receiver<u64>,
        observation: Sender<Observation<F>>,
        entity_names: Vec<String>,
        obs_remaining: [Arc<AtomicUsize>; 2],
        agent_count: usize,
    ) -> (agent: Self)
        requires
            always_subtracts::<F>(),
        ensures
            agent@.entity_names == names_view(entity_names@),
            agent@.score is None,
            agent@.parity == 0,
            agent@.agent_count == agent_count,
    {
        TrainAgent {
            action,
            observation,
            entity_names,
            score: None,
            obs_remaining,
            iremaining: 0,
            agent_count,
        }
    }

    /// Takes one off the round's counter of outstanding observations, and
    /// sends the step's observation. The score becomes the one to compare the
    /// next with.
    fn send_obs_raw(&mut self, obs: &Obs<F>)
        ensures
            final(self)@ == (TrainAgentView { score: Some(obs.spec_score()), ..old(self)@ }),
    {
        proof {
            use_type_invariant(&*self);
        }
        self.obs_remaining[self.iremaining].fetch_sub(1, Ordering::SeqCst);
        let observation = step_observation(&self.entity_names, self.score, obs);
        self.score = Some(obs.score());
        let _ = send(&self.observation, observation);
    }
}

impl<F: Copy + Default + Sub<Output = F>> Agent<F> for TrainAgent<F> {
    /// Sends the observation and waits for the action. The wait is refused
    /// where some, but not all, of the agents of the environment have sent
    /// their observation of the round. With the action the round ends: the
    /// counter is put back to the number of agents, and the other counter is
    /// the next round's. A closed channel gives no action.
    fn act_dyn(&mut self, _action: &str, _num_actions: u64, obs: &Obs<F>) -> (action: Result<
        Option<u64>,
        AgentError,
    >)
        ensures
            final(self)@.entity_names == old(self)@.entity_names,
            final(self)@.agent_count == old(self)@.agent_count,
            final(self)@.score == Some(obs.spec_score()),
            match action {
                Ok(Some(_)) => final(self)@.parity == 1 - old(self)@.parity,
                Ok(None) => final(self)@.parity == old(self)@.parity,
                Err(e) => e == AgentError::OutOfTurn && final(self)@.parity == old(self)@.parity,
            },
    {
        proof {
            use_type_invariant(&*self);
        }
        self.send_obs_raw(obs);
        proof {
            use_type_invariant(&*self);
        }
        let remaining = self.obs_remaining[self.iremaining].load(Ordering::SeqCst);
        if out_of_turn(remaining, self.agent_count) {
            return Err(AgentError::OutOfTurn);
        }
        match receive(&self.action) {
            Some(action) => {
                self.obs_remaining[self.iremaining].store(self.agent_count, Ordering::SeqCst);
                self.iremaining = 1 - self.iremaining;
                Ok(Some(action))
            },
            None => Ok(None),
        }
    }

    /// Sends the observation and returns at once with a receiver for the
    /// action. The agent goes on to the next round's counter; the receiver
    /// keeps the counter of the round that the observation belongs to.
    fn act_async_dyn(&mut self, _action: &str, _num_actions: u64, obs: &Obs<F>) -> (receiver:
        ActionReceiver<u64>)
        ensures
            final(self)@ == (TrainAgentView {
                score: Some(obs.spec_score()),
                parity: (1 - old(self)@.parity) as nat,
                ..old(self)@
            }),
            receiver.settled() is None,
    {
        proof {
            use_type_invariant(&*self);
        }
        self.send_obs_raw(obs);
        proof {
            use_type_invariant(&*self);
        }
        let counter = self.obs_remaining[self.iremaining].clone();
        self.iremaining = 1 - self.iremaining;
        ActionReceiver::pending(share(&self.action), counter, self.agent_count)
    }

    /// Sends the terminal observation of the episode, and forgets the score:
    /// the next episode's first reward is not compared with this one's.
    fn game_over(&mut self, obs: &Obs<F>)
        ensures
            final(self)@ == (TrainAgentView { score: None, ..old(self)@ }),
    {
        proof {
            use_type_invariant(&*self);
        }
        let observation = terminal_observation(self.entity_names.len(), self.score, obs);
        self.score = None;
        let _ = send(&self.observation, observation);
    }
}

/// Why the actions of a step cannot be handed to training agents.
#[derive(Debug, Clone, Copy, PartialEq, Eq, Structural)]
pub enum ChoiceError {
    /// There is not one list of actions per agent.
    WrongAgentCount,
    /// An agent's list does not hold exactly one action.
    WrongActionCount,
    /// An agent's action is missing.
    NoAction,
    /// An agent's action is not categorical.
    UnexpectedAction,
    /// An agent's action does not hold exactly one choice.
    WrongChoiceCount,
}

/// The one choice that the actions of one agent hold.
pub open spec fn spec_single_choice(actions: Seq<Option<ActionView>>) -> Result<u64, ChoiceError> {
    if actions.len() != 1 {
        Err(ChoiceError::WrongActionCount)
    } else {
        match actions[0] {
            None => Err(ChoiceError::NoAction),
            Some(ActionView::SelectEntity { .. }) => Err(ChoiceError::UnexpectedAction),
            Some(ActionView::Categorical { actors, action }) => if action.len() != 1 {
                Err(ChoiceError::WrongChoiceCount)
            } else {
                Ok(action[0] as u64)
            },
        }
    }
}

/// The one choice that the actions of one agent hold: a training agent has
/// one action type, is its only actor, and takes one choice per step.
pub fn single_choice(actions: &Vec<Option<Action>>) -> (choice: Result<u64, ChoiceError>)
    ensures
        choice == spec_single_choice(crate::low_level::env::actions_view(actions@)),
{
    if actions.len() != 1 {
        return Err(ChoiceError::WrongActionCount);
    }
    match &actions[0] {
        None => Err(ChoiceError::NoAction),
        Some(Action::SelectEntity { .. }) => Err(ChoiceError::UnexpectedAction),
        Some(Action::Categorical { actors: _, action }) => {
            if action.len() != 1 {
                Err(ChoiceError::WrongChoiceCount)
            } else {
                Ok(action[0] as u64)
            }
        },
    }
}

/// The choices of the first `upto` agents, or the first fault in the order of
/// the agents.
pub open spec fn spec_choices(action: Seq<Vec<Option<Action>>>, upto: int) -> Result<
    Seq<u64>,
    ChoiceError,
>
    decreases upto,
{
    if upto <= 0 {
        Ok(Seq::empty())
    } else {
        match spec_choices(action, upto - 1) {
            Err(e) => Err(e),
            Ok(front) => match spec_single_choice(
                crate::low_level::env::actions_view(action[upto - 1]@),
            ) {
                Err(e) => Err(e),
                Ok(c) => Ok(front.push(c)),
            },
        }
    }
}

/// A fault among the first agents stays the result however many more are
/// looked at.
pub proof fn lemma_choice_fault_stays(action: Seq<Vec<Option<Action>>>, from: int, upto: int)
    requires
        0 <= from <= upto,
        spec_choices(action, from) is Err,
    ensures
        spec_choices(action, upto) == spec_choices(action, from),
    decreases upto - from,
{
    if from < upto {
        lemma_choice_fault_stays(action, from, upto - 1);
    }
}

/// The choice of each of `agents` agents out of the actions of one step, or
/// why they cannot be handed out.
pub fn agent_choices(action: &[Vec<Option<Action>>], agents: usize) -> (choices: Result<
    Vec<u64>,
    ChoiceError,
>)
    ensures
        match choices {
            Ok(c) => action@.len() == agents && c@.len() == agents && spec_choices(
                action@,
                agents as int,
            ) == Ok::<Seq<u64>, ChoiceError>(c@),
            Err(e) => if action@.len() != agents {
                e == ChoiceError::WrongAgentCount
            } else {
                spec_choices(action@, agents as int) == Err::<Seq<u64>, ChoiceError>(e)
            },
        },
{
    if action.len() != agents {
        return Err(ChoiceError::WrongAgentCount);
    }
    let mut choices: Vec<u64> = Vec::new();
    let mut i: usize = 0;
    while i < agents
        invariant
            i <= agents,
            agents == action@.len(),
            choices@.len() == i,
            spec_choices(action@, i as int) == Ok::<Seq<u64>, ChoiceError>(choices@),
        decreases agents - i,
    {
        match single_choice(&action[i]) {
            Ok(c) => {
                choices.push(c);
            },
            Err(e) => {
                proof {
                    lemma_choice_fault_stays(action@, i as int + 1, agents as int);
                }
                return Err(e);
            },
        }
        i += 1;
    }
    Ok(choices)
}

/// The observations that came, out of what was received from the agents in
/// their order: an agent whose channel is closed gave none.
pub open spec fn spec_present<F>(received: Seq<Option<Observation<F>>>) -> Seq<Observation<F>>
    decreases received.len(),
{
    if received.len() == 0 {
        Seq::empty()
    } else {
        match received.last() {
            Some(o) => spec_present(received.drop_last()).push(o),
            None => spec_present(received.drop_last()),
        }
    }
}

/// No more observations came than agents were waited for.
pub proof fn lemma_present_len<F>(received: Seq<Option<Observation<F>>>)
    ensures
        spec_present(received).len() <= received.len(),
    decreases received.len(),
{
    if received.len() > 0 {
        lemma_present_len(received.drop_last());
    }
}

/// The observations of a step as the environment hands them on: those that
/// came, in the order of the agents, each in a box of its own.
pub fn present<F>(received: Vec<Option<Observation<F>>>) -> (obs: Vec<Box<Observation<F>>>)
    ensures
        obs@.len() == spec_present(received@).len(),
        forall|i: int| 0 <= i < obs@.len() ==> *(#[trigger] obs@[i]) == spec_present(received@)[i],
{
    let ghost all = received@;
    let mut rest = received;
    let mut stack: Vec<Box<Observation<F>>> = Vec::new();
    while rest.len() > 0
        invariant
            rest@.len() <= all.len(),
            rest@ == all.take(rest@.len() as int),
            spec_present(all).len() == spec_present(rest@).len() + stack@.len(),
            forall|i: int|
                0 <= i < stack@.len() ==> *(#[trigger] stack@[i]) == spec_present(all)[
                    spec_present(all).len() - 1 - i
                ],
            forall|i: int|
                0 <= i < spec_present(rest@).len() ==> spec_present(rest@)[i] == spec_present(
                    all,
                )[i],
        decreases rest@.len(),
    {
        let ghost before = rest@;
        let last = rest.pop();
        proof {
            assert(rest@ =~= before.drop_last());
            assert(rest@ =~= all.take(rest@.len() as int));
        }
        match last {
            Some(Some(o)) => {
                stack.push(Box::new(o));
            },
            _ => {},
        }
    }
    let n = stack.len();
    let mut obs: Vec<Box<Observation<F>>> = Vec::new();
    while stack.len() > 0
        invariant
            stack@.len() <= n,
            n == spec_present(all).len(),
            obs@.len() + stack@.len() == n,
            forall|i: int|
                0 <= i < stack@.len() ==> *(#[trigger] stack@[i]) == spec_present(all)[n - 1 - i],
            forall|i: int| 0 <= i < obs@.len() ==> *(#[trigger] obs@[i]) == spec_present(all)[i],
        decreases stack@.len(),
    {
        match stack.pop() {
            Some(o) => {
                obs.push(o);
            },
            None => {},
        }
    }
    obs
}

/// An [`Environment`] that is paired with `N` training agents: a step hands
/// each agent its choice and waits for each agent's next observation.
#[verifier::reject_recursive_types(F)]
pub struct TrainAgentEnv<F, const N: usize> {
    obs_space: ObsSpace,
    action_space: Vec<(String, ActionSpace)>,
    action: Vec<Sender<u64>>,
    observation: Vec<Receiver<Observation<F>>>,
}

impl<F, const N: usize> TrainAgentEnv<F, N> {
    /// The entity types of the environment.
    pub closed spec fn entities(&self) -> Seq<(Seq<char>, Seq<Seq<char>>)> {
        self.obs_space@
    }

    /// The action types of the environment.
    pub closed spec fn actions(&self) -> Seq<(Seq<char>, ActionSpaceView)> {
        Seq::new(self.action_space@.len(), |i: int| (self.action_space@[i].0@, self.action_space@[i].1@))
    }

    /// The number of agents whose channels the environment holds.
    pub closed spec fn channels(&self) -> nat {
        self.action@.len()
    }

    /// Holds of every environment that exists at run time.
    #[verifier::type_invariant]
    pub closed spec fn well_formed(&self) -> bool {
        self.action@.len() == self.observation@.len()
    }

    /// Waits for one observation of each agent, in the order of the agents.
    /// An agent whose channel is closed gives none.
    fn observe(&self) -> (obs: Vec<Box<Observation<F>>>)
        ensures
            obs@.len() <= self.channels(),
    {
        proof {
            use_type_invariant(self);
        }
        let mut received: Vec<Option<Observation<F>>> = Vec::new();
        let mut i: usize = 0;
        while i < self.observation.len()
            invariant
                i <= self.observation@.len(),
                received@.len() == i,
            decreases self.observation.len() - i,
        {
            received.push(receive(&self.observation[i]));
            i += 1;
        }
        proof {
            lemma_present_len(received@);
        }
        present(received)
    }
}

impl<F: Copy, const N: usize> Environment for TrainAgentEnv<F, N> {
    type Scalar = F;

    fn obs_space(&self) -> (space: ObsSpace)
        ensures
            space@ == self.entities(),
    {
        let mut entities: Vec<(String, Entity)> = Vec::new();
        let mut i: usize = 0;
        while i < self.obs_space.entities.len()
            invariant
                i <= self.obs_space.entities@.len(),
                entities@.len() == i,
                forall|k: int|
                    0 <= k < i ==> (#[trigger] entities@[k]).0@ == self.obs_space.entities@[k].0@
                        && entities@[k].1@ == self.obs_space.entities@[k].1@,
            decreases self.obs_space.entities.len() - i,
        {
            entities.push(
                (self.obs_space.entities[i].0.clone(), self.obs_space.entities[i].1.clone()),
            );
            i += 1;
        }
        let space = ObsSpace { entities };
        assert(space@ =~= self.obs_space@);
        space
    }

    fn action_space(&self) -> (space: Vec<(ActionType, ActionSpace)>)
        ensures
            space@.len() == self.actions().len(),
            forall|k: int|
                0 <= k < space@.len() ==> (#[trigger] space@[k]).0@ == self.actions()[k].0
                    && space@[k].1@ == self.actions()[k].1,
    {
        let mut space: Vec<(String, ActionSpace)> = Vec::new();
        let mut i: usize = 0;
        while i < self.action_space.len()
            invariant
                i <= self.action_space@.len(),
                space@.len() == i,
                forall|k: int|
                    0 <= k < i ==> (#[trigger] space@[k]).0@ == self.action_space@[k].0@
                        && space@[k].1@ == self.action_space@[k].1@,
            decreases self.action_space.len() - i,
        {
            space.push((self.action_space[i].0.clone(), self.action_space[i].1.clone()));
            i += 1;
        }
        space
    }

    fn agents() -> (n: usize)
        ensures
            n == N,
    {
        N
    }

    /// Waits for the first observation of each agent.
    fn reset(&mut self) -> (obs: Vec<Box<Observation<F>>>)
        ensures
            obs@.len() <= old(self).channels(),
            final(self).channels() == old(self).channels(),
    {
        self.observe()
    }

    /// Hands each agent its choice and waits for each agent's next
    /// observation. Where the actions are not one categorical choice per
    /// agent nothing is handed out and no observation comes back; an agent
    /// whose channel is closed gets no choice and gives no observation.
    fn act(&mut self, action: &[Vec<Option<Action>>]) -> (obs: Vec<Box<Observation<F>>>)
        ensures
            obs@.len() <= old(self).channels(),
            final(self).channels() == old(self).channels(),
            agent_choices_fault(action@, old(self).channels()) ==> obs@.len() == 0,
    {
        proof {
            use_type_invariant(&*self);
        }
        let choices = match agent_choices(action, self.action.len()) {
            Ok(c) => c,
            Err(_) => {
                return Vec::new();
            },
        };
        let mut i: usize = 0;
        while i < choices.len()
            invariant
                i <= choices@.len(),
                choices@.len() == self.action@.len(),
            decreases choices.len() - i,
        {
            let _ = send(&self.action[i], choices[i]);
            i += 1;
        }
        self.observe()
    }
}

/// Whether the actions of a step are not one categorical choice for each of
/// `agents` agents.
pub open spec fn agent_choices_fault(action: Seq<Vec<Option<Action>>>, agents: nat) -> bool {
    action.len() != agents || spec_choices(action, agents as int) is Err
}

impl TrainEnvBuilder {
    /// The two ends of a training environment with `N` agents: the
    /// environment, which holds the registered spaces, and its agents, at the
    /// start of an episode. The agents share the two counters of outstanding
    /// observations, which start at `N`. Each agent is connected with the
    /// environment by one single-slot channel for its observations and one for
    /// its actions.
    pub fn build_parts<F: Copy + Default + Sub<Output = F>, const N: usize>(&self) -> (parts: (
        TrainAgentEnv<F, N>,
        Vec<TrainAgent<F>>,
    ))
        requires
            always_subtracts::<F>(),
        ensures
            parts.0.entities() == self.entities(),
            parts.0.actions() == self.actions(),
            parts.0.channels() == N,
            parts.1@.len() == N,
            forall|i: int|
                0 <= i < N ==> {
                    &&& (#[trigger] parts.1@[i])@.entity_names == Seq::new(
                        self.entities().len(),
                        |k: int| self.entities()[k].0,
                    )
                    &&& parts.1@[i]@.score is None
                    &&& parts.1@[i]@.parity == 0
                    &&& parts.1@[i]@.agent_count == N
                },
    {
        let first = Arc::new(AtomicUsize::new(N));
        let second = Arc::new(AtomicUsize::new(N));
        let mut action: Vec<Sender<u64>> = Vec::new();
        let mut observation: Vec<Receiver<Observation<F>>> = Vec::new();
        let mut agents: Vec<TrainAgent<F>> = Vec::new();
        let mut i: usize = 0;
        while i < N
            invariant
                i <= N,
                always_subtracts::<F>(),
                action@.len() == i,
                observation@.len() == i,
                agents@.len() == i,
                forall|j: int|
                    0 <= j < i ==> {
                        &&& (#[trigger] agents@[j])@.entity_names == Seq::new(
                            self.entities().len(),
                            |k: int| self.entities()[k].0,
                        )
                        &&& agents@[j]@.score is None
                        &&& agents@[j]@.parity == 0
                        &&& agents@[j]@.agent_count == N
                    },
            decreases N - i,
        {
            let (action_tx, action_rx) = channel::<u64>(BRIDGE_CAPACITY);
            let (observation_tx, observation_rx) = channel::<Observation<F>>(BRIDGE_CAPACITY);
            let names = self.entity_names();
            action.push(action_tx);
            observation.push(observation_rx);
            agents.push(
                TrainAgent::new(
                    action_rx,
                    observation_tx,
                    names,
                    [first.clone(), second.clone()],
                    N,
                ),
            );
            i += 1;
        }
        let action_space = self.action_space();
        let env = TrainAgentEnv {
            obs_space: self.obs_space(),
            action_space,
            action,
            observation,
        };
        assert(env.actions() =~= self.actions());
        (env, agents)
    }

    /// The names of the registered entity types, in registration order.
    pub fn entity_names(&self) -> (names: Vec<String>)
        ensures
            names_view(names@) == Seq::new(self.entities().len(), |k: int| self.entities()[k].0),
    {
        let mut names: Vec<String> = Vec::new();
        let mut i: usize = 0;
        while i < self.entities.len()
            invariant
                i <= self.entities@.len(),
                names@.len() == i,
                forall|k: int| 0 <= k < i ==> names@[k]@ == self.entities@[k].0@,
            decreases self.entities.len() - i,
        {
            names.push(self.entities[i].0.clone());
            i += 1;
        }
        assert(names_view(names@) =~= Seq::new(
            self.entities().len(),
            |k: int| self.entities()[k].0,
        ));
        names
    }
}

impl Default for TrainEnvBuilder {
    fn default() -> (b: Self)
        ensures
            b.entities() == Seq::<(Seq<char>, Seq<Seq<char>>)>::empty(),
            b.actions() == Seq::<(Seq<char>, ActionSpaceView)>::empty(),
    {
        TrainEnvBuilder::new()
    }
}

} // verus!
