use crate::low_level::decode::{decode_agent, spec_decode_agent, ProtocolViolation};
use crate::low_level::env::{
    copy_masks, masks_view, Action, ActionMask, ActionMaskView, ActionSpace, ActionType,
    ActionView, ObsSpace, Observation, ObservationView,
};
use crate::low_level::ragged_buffer::RaggedBuffer;
use crate::low_level::shard::{shard_of, shard_len, shard_start, Shard};
use vstd::prelude::*;

verus! {

/// A simulation that is stepped in rounds. One instance serves `agents()`
/// cooperating agents: it gives one observation per agent, and takes one list
/// of actions per agent, with one entry per action type in the order of
/// `action_space()`.
pub trait Environment {
    /// The numeric type of features, rewards and metrics.
    type Scalar: Copy;

    fn obs_space(&self) -> ObsSpace;

    fn action_space(&self) -> Vec<(ActionType, ActionSpace)>;

    fn agents() -> usize;

    fn reset(&mut self) -> Vec<Box<Observation<Self::Scalar>>>;

    fn act(&mut self, action: &[Vec<Option<Action>>]) -> Vec<Box<Observation<Self::Scalar>>>;

    fn close(&mut self) {
    }
}

/// Why a worker could not be set up or could not finish a round.
#[derive(Debug, Clone, Copy, PartialEq, Eq, Structural)]
pub enum WorkerError {
    /// The worker index is not below the number of workers.
    NoSuchThread,
    /// The shard does not hold a whole number of environments: its size is
    /// not a multiple of the number of agents per environment.
    AgentsDoNotDivide,
    /// A seed does not fit the machine word.
    SeedOverflow,
    /// An environment gave another number of observations than it has agents.
    AgentCountMismatch,
    /// A step was asked for before the shard was ever reset.
    StepBeforeReset,
    /// The round's actions do not fit the masks of the last observations.
    Protocol(ProtocolViolation),
}

/// Whether the observations of one step end the episode: the first agent's
/// flag decides for the environment.
pub fn episode_over<F>(obs: &Vec<Box<Observation<F>>>) -> (over: bool)
    ensures
        over == (obs@.len() > 0 && obs@[0].done),
{
    obs.len() > 0 && obs[0].done
}

/// Reports a terminal step together with the start of the next episode: takes
/// the observations `fresh` of the reset that followed, and gives each the
/// reward and the `done` flag of the terminal observation `last` of the same
/// agent. Everything else is that of the fresh observation.
pub fn relabel_terminal<F: Copy>(
    fresh: Vec<Box<Observation<F>>>,
    last: &Vec<Box<Observation<F>>>,
) -> (out: Vec<Box<Observation<F>>>)
    ensures
        out@.len() == fresh@.len(),
        forall|i: int|
            0 <= i < fresh@.len() ==> (#[trigger] out@[i])@ == if i < last@.len() {
                (ObservationView { done: last@[i].done, reward: last@[i].reward, ..fresh@[i]@ })
            } else {
                fresh@[i]@
            },
{
    let mut out = fresh;
    let n = if out.len() < last.len() {
        out.len()
    } else {
        last.len()
    };
    let mut i: usize = 0;
    while i < n
        invariant
            i <= n,
            n <= last@.len(),
            n <= fresh@.len(),
            out@.len() == fresh@.len(),
            forall|k: int|
                0 <= k < i ==> (#[trigger] out@[k])@ == (ObservationView {
                    done: last@[k].done,
                    reward: last@[k].reward,
                    ..fresh@[k]@
                }),
            forall|k: int| i <= k < fresh@.len() ==> out@[k] == fresh@[k],
        decreases n - i,
    {
        out[i].reward = last[i].reward;
        out[i].done = last[i].done;
        i += 1;
    }
    out
}

/// What a reset of one environment publishes: the fresh observations as
/// they are, where there is one per agent.
pub fn settle_reset<F>(fresh: Vec<Box<Observation<F>>>, agents: usize) -> (published: Result<
    Vec<Box<Observation<F>>>,
    WorkerError,
>)
    ensures
        match published {
            Ok(obs) => fresh@.len() == agents && obs@ == fresh@,
            Err(e) => e == WorkerError::AgentCountMismatch && fresh@.len() != agents,
        },
{
    if fresh.len() != agents {
        Err(WorkerError::AgentCountMismatch)
    } else {
        Ok(fresh)
    }
}

/// Whether the step of one environment with `agents` agents calls for a
/// reset: it gave one observation per agent, and they end the episode.
pub open spec fn spec_wants_reset<F>(stepped: Seq<Box<Observation<F>>>, agents: nat) -> bool {
    stepped.len() == agents && agents > 0 && stepped[0].done
}

/// Whether the step of one environment calls for a reset. The environment is
/// reset where this holds, and only there.
pub fn wants_reset<F>(stepped: &Vec<Box<Observation<F>>>, agents: usize) -> (wanted: bool)
    ensures
        wanted == spec_wants_reset(stepped@, agents as nat),
{
    stepped.len() == agents && episode_over(stepped)
}

/// The number of fresh observations: none where no reset was made.
pub open spec fn fresh_len<F>(fresh: Option<Vec<Box<Observation<F>>>>) -> nat {
    match fresh {
        Some(f) => f@.len(),
        None => 0,
    }
}

/// What a step of one environment publishes, from what its `act` gave and,
/// where the step called for a reset, what its `reset` then gave. A step that
/// does not end the episode is published as it is. A step that ends it is
/// published as the fresh observations of the reset, each with the reward
/// and the `done` flag of the same agent's terminal observation and nothing
/// else changed. Either list fails the round where it does not hold one
/// observation per agent.
pub fn settle_step<F: Copy>(
    stepped: Vec<Box<Observation<F>>>,
    fresh: Option<Vec<Box<Observation<F>>>>,
    agents: usize,
) -> (published: Result<Vec<Box<Observation<F>>>, WorkerError>)
    ensures
        match published {
            Ok(obs) => {
                &&& stepped@.len() == agents
                &&& obs@.len() == agents
                &&& if spec_wants_reset(stepped@, agents as nat) {
                    &&& fresh matches Some(f)
                    &&& f@.len() == agents
                    &&& forall|i: int|
                        0 <= i < agents ==> (#[trigger] obs@[i])@ == (ObservationView {
                            done: stepped@[i].done,
                            reward: stepped@[i].reward,
                            ..f@[i]@
                        })
                } else {
                    obs@ == stepped@
                }
            },
            Err(e) => {
                &&& e == WorkerError::AgentCountMismatch
                &&& (stepped@.len() != agents || (spec_wants_reset(stepped@, agents as nat)
                    && fresh_len(fresh) != agents))
            },
        },
{
    if stepped.len() != agents {
        return Err(WorkerError::AgentCountMismatch);
    }
    if !wants_reset(&stepped, agents) {
        return Ok(stepped);
    }
    match fresh {
        None => Err(WorkerError::AgentCountMismatch),
        Some(f) => {
            if f.len() != agents {
                Err(WorkerError::AgentCountMismatch)
            } else {
                Ok(relabel_terminal(f, &stepped))
            }
        },
    }
}

/// The masks that a shard keeps from one round to the next: for each of its
/// instances the masks of the last observation, one per action type.
pub open spec fn shard_masks_view(masks: Seq<Vec<Option<ActionMask>>>) -> Seq<
    Seq<Option<ActionMaskView>>,
> {
    Seq::new(masks.len(), |k: int| masks_view(masks[k]@))
}

/// The masks that a list of observations carries.
pub open spec fn observed_masks<F>(obs: Seq<Box<Observation<F>>>) -> Seq<
    Seq<Option<ActionMaskView>>,
> {
    Seq::new(obs.len(), |k: int| masks_view(obs[k].actions@))
}

/// The models of the decoded actions of a shard: per instance, per action type.
pub open spec fn shard_actions_view(actions: Seq<Vec<Option<Action>>>) -> Seq<
    Seq<Option<ActionView>>,
> {
    Seq::new(actions.len(), |k: int| crate::low_level::env::actions_view(actions[k]@))
}

/// What the batch means for the first `upto` instances of a shard that starts
/// at global id `start`: the first violation in the order of the instances,
/// or the decoded actions of each.
pub open spec fn spec_decode_shard(
    batch: Seq<Option<RaggedBuffer<i64>>>,
    masks: Seq<Seq<Option<ActionMaskView>>>,
    start: int,
    upto: int,
) -> Result<Seq<Seq<Option<ActionView>>>, ProtocolViolation>
    decreases upto,
{
    if upto <= 0 {
        Ok(Seq::empty())
    } else {
        match spec_decode_shard(batch, masks, start, upto - 1) {
            Err(e) => Err(e),
            Ok(front) => match spec_decode_agent(
                batch,
                masks[upto - 1],
                start + upto - 1,
                batch.len() as int,
            ) {
                Err(e) => Err(e),
                Ok(a) => Ok(front.push(a)),
            },
        }
    }
}

/// A violation among the first instances stays the result however many more
/// are decoded.
pub proof fn lemma_shard_violation_stays(
    batch: Seq<Option<RaggedBuffer<i64>>>,
    masks: Seq<Seq<Option<ActionMaskView>>>,
    start: int,
    from: int,
    upto: int,
)
    requires
        0 <= from <= upto,
        spec_decode_shard(batch, masks, start, from) is Err,
    ensures
        spec_decode_shard(batch, masks, start, upto) == spec_decode_shard(
            batch,
            masks,
            start,
            from,
        ),
    decreases upto - from,
{
    if from < upto {
        lemma_shard_violation_stays(batch, masks, start, from, upto - 1);
    }
}

/// Where a shard decodes, it has one list of actions per instance.
pub proof fn lemma_decoded_len(
    batch: Seq<Option<RaggedBuffer<i64>>>,
    masks: Seq<Seq<Option<ActionMaskView>>>,
    start: int,
    upto: int,
)
    requires
        0 <= upto,
    ensures
        match spec_decode_shard(batch, masks, start, upto) {
            Ok(a) => a.len() == upto,
            Err(_) => true,
        },
    decreases upto,
{
    if upto > 0 {
        lemma_decoded_len(batch, masks, start, upto - 1);
    }
}

/// The model of the decoded actions of a shard.
pub open spec fn shard_decoded_view(
    decoded: Result<Vec<Vec<Option<Action>>>, ProtocolViolation>,
) -> Result<Seq<Seq<Option<ActionView>>>, ProtocolViolation> {
    match decoded {
        Ok(a) => Ok(shard_actions_view(a@)),
        Err(e) => Err(e),
    }
}

/// Decodes the round's batch for every instance of a shard: instance `k` of
/// the shard has global id `start + k` and is decoded under `masks[k]`.
/// Nothing is decoded for an instance unless all before it were.
pub fn decode_shard(
    batch: &Vec<Option<RaggedBuffer<i64>>>,
    masks: &Vec<Vec<Option<ActionMask>>>,
    start: usize,
) -> (decoded: Result<Vec<Vec<Option<Action>>>, ProtocolViolation>)
    requires
        start + masks@.len() <= usize::MAX,
    ensures
        shard_decoded_view(decoded) == spec_decode_shard(
            batch@,
            shard_masks_view(masks@),
            start as int,
            masks@.len() as int,
        ),
{
    let mut out: Vec<Vec<Option<Action>>> = Vec::new();
    let mut k: usize = 0;
    assert(shard_actions_view(out@) =~= Seq::<Seq<Option<ActionView>>>::empty());
    while k < masks.len()
        invariant
            k <= masks@.len(),
            start + masks@.len() <= usize::MAX,
            spec_decode_shard(batch@, shard_masks_view(masks@), start as int, k as int) == Ok::<
                Seq<Seq<Option<ActionView>>>,
                ProtocolViolation,
            >(shard_actions_view(out@)),
        decreases masks.len() - k,
    {
        let ghost front = shard_actions_view(out@);
        assert(shard_masks_view(masks@)[k as int] == masks_view(masks@[k as int]@));
        match decode_agent(batch, &masks[k], start + k) {
            Ok(actions) => {
                out.push(actions);
                assert(shard_actions_view(out@) =~= front.push(
                    crate::low_level::env::actions_view(actions@),
                ));
            },
            Err(e) => {
                proof {
                    lemma_shard_violation_stays(
                        batch@,
                        shard_masks_view(masks@),
                        start as int,
                        k as int + 1,
                        masks@.len() as int,
                    );
                }
                return Err(e);
            },
        }
        k += 1;
    }
    Ok(out)
}

/// What a shard worker is, seen from outside: which instances it owns, how
/// many agents share one environment, and the masks it has on record.
pub struct ShardWorkerView {
    pub shard: Shard,
    pub agents: nat,
    pub masks: Seq<Seq<Option<ActionMaskView>>>,
}

impl ShardWorkerView {
    /// Whether the masks of a round are on record, one list per owned instance.
    pub open spec fn has_masks(self) -> bool {
        self.masks.len() == self.shard.len
    }
}

/// Owns the environments of one shard and steps them round by round. Between
/// rounds it keeps, for each of its instances, the masks of the observation
/// that the instance gave last: the next round's raw actions are decoded with
/// them.
pub struct ShardWorker<E: Environment> {
    envs: Vec<E>,
    agents: usize,
    shard: Shard,
    masks: Vec<Vec<Option<ActionMask>>>,
}

type Round<F> = (Vec<Box<Observation<F>>>, Vec<Vec<Option<ActionMask>>>);

fn reset_envs<E: Environment>(envs: &mut Vec<E>, agents: usize) -> (round: Result<
    Round<E::Scalar>,
    WorkerError,
>)
    requires
        agents > 0,
        old(envs)@.len() * agents <= usize::MAX,
    ensures
        final(envs)@.len() == old(envs)@.len(),
        match round {
            Ok((obs, masks)) => obs@.len() == old(envs)@.len() * agents && shard_masks_view(masks@)
                == observed_masks(obs@),
            Err(e) => e == WorkerError::AgentCountMismatch && old(envs)@.len() > 0,
        },
{
    let n = envs.len();
    let mut out: Vec<Box<Observation<E::Scalar>>> = Vec::new();
    let mut masks: Vec<Vec<Option<ActionMask>>> = Vec::new();
    let mut i: usize = 0;
    assert(0 * agents == 0) by (nonlinear_arith);
    while i < n
        invariant
            i <= n,
            n == envs@.len(),
            n == old(envs)@.len(),
            agents > 0,
            n * agents <= usize::MAX,
            out@.len() == i * agents,
            masks@.len() == out@.len(),
            forall|k: int|
                0 <= k < out@.len() ==> masks_view((#[trigger] masks@[k])@) == masks_view(
                    out@[k].actions@,
                ),
        decreases n - i,
    {
        let mut obs = match settle_reset(envs[i].reset(), agents) {
            Ok(obs) => obs,
            Err(e) => {
                return Err(e);
            },
        };
        proof {
            assert((i + 1) * agents == i * agents + agents) by (nonlinear_arith);
            assert((i + 1) * agents <= n * agents) by (nonlinear_arith)
                requires
                    i + 1 <= n,
                    agents > 0,
            ;
        }
        record_masks(&mut masks, &obs);
        out.append(&mut obs);
        i += 1;
    }
    assert(shard_masks_view(masks@) =~= observed_masks(out@));
    Ok((out, masks))
}

fn record_masks<F>(masks: &mut Vec<Vec<Option<ActionMask>>>, obs: &Vec<Box<Observation<F>>>)
    ensures
        final(masks)@.len() == old(masks)@.len() + obs@.len(),
        forall|k: int| 0 <= k < old(masks)@.len() ==> final(masks)@[k] == old(masks)@[k],
        forall|k: int|
            old(masks)@.len() <= k < final(masks)@.len() ==> masks_view(
                (#[trigger] final(masks)@[k])@,
            ) == masks_view(obs@[k - old(masks)@.len()].actions@),
{
    let ghost before = masks@;
    let mut j: usize = 0;
    while j < obs.len()
        invariant
            j <= obs@.len(),
            masks@.len() == before.len() + j,
            forall|k: int| 0 <= k < before.len() ==> masks@[k] == before[k],
            forall|k: int|
                before.len() <= k < masks@.len() ==> masks_view((#[trigger] masks@[k])@)
                    == masks_view(obs@[k - before.len()].actions@),
        decreases obs.len() - j,
    {
        masks.push(copy_masks(&obs[j].actions));
        j += 1;
    }
}

fn step_envs<E: Environment>(
    envs: &mut Vec<E>,
    agents: usize,
    actions: &Vec<Vec<Option<Action>>>,
) -> (round: Result<Round<E::Scalar>, WorkerError>)
    requires
        agents > 0,
        actions@.len() == old(envs)@.len() * agents,
    ensures
        final(envs)@.len() == old(envs)@.len(),
        match round {
            Ok((obs, masks)) => obs@.len() == old(envs)@.len() * agents && shard_masks_view(masks@)
                == observed_masks(obs@),
            Err(e) => e == WorkerError::AgentCountMismatch && old(envs)@.len() > 0,
        },
{
    let n = envs.len();
    let total = actions.len();
    let mut out: Vec<Box<Observation<E::Scalar>>> = Vec::new();
    let mut masks: Vec<Vec<Option<ActionMask>>> = Vec::new();
    let mut i: usize = 0;
    let mut base: usize = 0;
    assert(0 * agents == 0) by (nonlinear_arith);
    while i < n
        invariant
            i <= n,
            n == envs@.len(),
            n == old(envs)@.len(),
            agents > 0,
            total == actions@.len(),
            total == n * agents,
            base == i * agents,
            out@.len() == base,
            masks@.len() == out@.len(),
            forall|k: int|
                0 <= k < out@.len() ==> masks_view((#[trigger] masks@[k])@) == masks_view(
                    out@[k].actions@,
                ),
        decreases n - i,
    {
        proof {
            assert((i + 1) * agents == i * agents + agents) by (nonlinear_arith);
            assert((i + 1) * agents <= n * agents) by (nonlinear_arith)
                requires
                    i + 1 <= n,
                    agents > 0,
            ;
        }
        let for_env = vstd::slice::slice_subrange(actions.as_slice(), base, base + agents);
        let stepped = envs[i].act(for_env);
        let fresh = if wants_reset(&stepped, agents) {
            Some(envs[i].reset())
        } else {
            None
        };
        let mut obs = match settle_step(stepped, fresh, agents) {
            Ok(obs) => obs,
            Err(e) => {
                return Err(e);
            },
        };
        record_masks(&mut masks, &obs);
        out.append(&mut obs);
        base = base + agents;
        i += 1;
    }
    assert(shard_masks_view(masks@) =~= observed_masks(out@));
    Ok((out, masks))
}

impl<E: Environment> View for ShardWorker<E> {
    type V = ShardWorkerView;

    closed spec fn view(&self) -> ShardWorkerView {
        ShardWorkerView {
            shard: self.shard,
            agents: self.agents as nat,
            masks: shard_masks_view(self.masks@),
        }
    }
}

impl<E: Environment> ShardWorker<E> {
    /// Holds of every worker that exists at run time.
    #[verifier::type_invariant]
    pub closed spec fn well_formed(&self) -> bool {
        &&& self.agents > 0
        &&& self.envs@.len() * self.agents == self.shard.len
        &&& self.shard.start + self.shard.len <= usize::MAX
        &&& (self.masks@.len() == 0 || self.masks@.len() == self.shard.len)
    }

    /// The environments that the worker owns.
    pub closed spec fn environments(&self) -> Seq<E> {
        self.envs@
    }

    /// A worker owns a whole number of environments, and its ids fit the
    /// machine word; its masks are those of a whole round or none.
    pub proof fn lemma_shape(&self)
        requires
            self.well_formed(),
        ensures
            self@.agents > 0,
            self.environments().len() * self@.agents == self@.shard.len,
            self@.shard.start + self@.shard.len <= usize::MAX,
            self@.masks.len() == 0 || self@.has_masks(),
    {
    }

    /// Sets up worker `thread` out of `threads` for `total_envs` instances:
    /// takes its shard, and makes one environment for every `agents()`
    /// instances of it. Environment `i` of the shard is made from the seed
    /// `seed_offset + start + i`, where `start` is the shard's first id.
    pub fn new<Fac: Fn(u64) -> E>(
        factory: &Fac,
        total_envs: usize,
        threads: usize,
        thread: usize,
        seed_offset: u64,
    ) -> (worker: Result<Self, WorkerError>)
        requires
            forall|seed: u64| call_requires(*factory, (seed,)),
        ensures
            match worker {
                Ok(w) => {
                    &&& thread < threads
                    &&& w@.shard.start == shard_start(
                        total_envs as nat,
                        threads as nat,
                        thread as nat,
                    )
                    &&& w@.shard.len == shard_len(total_envs as nat, threads as nat, thread as nat)
                    &&& call_ensures(E::agents, (), w@.agents as usize)
                    &&& w@.masks.len() == 0
                    &&& w.environments().len() * w@.agents == w@.shard.len
                    &&& forall|i: int|
                        0 <= i < w.environments().len() ==> call_ensures(
                            *factory,
                            ((seed_offset + w@.shard.start + i) as u64,),
                            #[trigger] w.environments()[i],
                        )
                },
                Err(WorkerError::NoSuchThread) => thread >= threads,
                Err(WorkerError::AgentsDoNotDivide) => thread < threads && exists|n: usize|
                    call_ensures(E::agents, (), n) && (n == 0 || shard_len(
                        total_envs as nat,
                        threads as nat,
                        thread as nat,
                    ) % (n as nat) != 0),
                Err(WorkerError::SeedOverflow) => thread < threads && exists|n: usize|
                    call_ensures(E::agents, (), n) && n > 0 && seed_offset + shard_start(
                        total_envs as nat,
                        threads as nat,
                        thread as nat,
                    ) + shard_len(total_envs as nat, threads as nat, thread as nat) / (n as nat)
                        > u64::MAX + 1,
                Err(_) => false,
            },
    {
        if thread >= threads {
            return Err(WorkerError::NoSuchThread);
        }
        let shard = shard_of(total_envs, threads, thread);
        let agents = E::agents();
        if agents == 0 || shard.len % agents != 0 {
            return Err(WorkerError::AgentsDoNotDivide);
        }
        let count = shard.len / agents;
        proof {
            vstd::arithmetic::div_mod::lemma_fundamental_div_mod(shard.len as int, agents as int);
            assert(agents * count == count * agents) by (nonlinear_arith);
            assert(count <= count * agents) by (nonlinear_arith)
                requires
                    agents >= 1,
                    count >= 0,
            ;
        }
        if count > 0 {
            let last = shard.start + (count - 1);
            if last as u64 > u64::MAX - seed_offset {
                return Err(WorkerError::SeedOverflow);
            }
        }
        let mut envs: Vec<E> = Vec::new();
        let mut i: usize = 0;
        while i < count
            invariant
                i <= count,
                envs@.len() == i,
                count > 0 ==> seed_offset + shard.start + count - 1 <= u64::MAX,
                shard.start + count <= usize::MAX,
                forall|seed: u64| call_requires(*factory, (seed,)),
                forall|k: int|
                    0 <= k < i ==> call_ensures(
                        *factory,
                        ((seed_offset + shard.start + k) as u64,),
                        #[trigger] envs@[k],
                    ),
            decreases count - i,
        {
            let seed = seed_offset + (shard.start + i) as u64;
            envs.push(factory(seed));
            i += 1;
        }
        Ok(ShardWorker { envs, agents, shard, masks: Vec::new() })
    }

    /// The instances that the worker owns.
    pub fn shard(&self) -> (shard: Shard)
        ensures
            shard == self@.shard,
    {
        self.shard
    }

    /// The number of agents that share one environment.
    pub fn agents(&self) -> (agents: usize)
        ensures
            agents == self@.agents,
    {
        self.agents
    }

    /// The environments of the shard.
    pub fn envs(&self) -> (envs: &Vec<E>)
        ensures
            envs@ == self.environments(),
    {
        &self.envs
    }

    /// Resets every environment of the shard, in order, and takes the masks of
    /// the first observations on record. The observations come in the order of
    /// the shard's ids; what each environment gave is published as
    /// `settle_reset` says. Where an environment gives another number of
    /// observations than it has agents, the round fails and no masks stay on
    /// record; a shard without environments cannot fail.
    pub fn reset_round(&mut self) -> (round: Result<Vec<Box<Observation<E::Scalar>>>, WorkerError>)
        ensures
            final(self)@.shard == old(self)@.shard,
            final(self)@.agents == old(self)@.agents,
            final(self).environments().len() == old(self).environments().len(),
            match round {
                Ok(obs) => obs@.len() == old(self)@.shard.len && final(self)@.masks
                    == observed_masks(obs@),
                Err(e) => {
                    &&& e == WorkerError::AgentCountMismatch
                    &&& final(self)@.masks.len() == 0
                    &&& old(self).environments().len() > 0
                },
            },
    {
        proof {
            use_type_invariant(&*self);
        }
        let mut taken = ShardWorker {
            envs: Vec::new(),
            agents: self.agents,
            shard: Shard { start: 0, len: 0 },
            masks: Vec::new(),
        };
        assert(0 * taken.agents == 0) by (nonlinear_arith);
        std::mem::swap(self, &mut taken);
        let agents = taken.agents;
        let shard = taken.shard;
        let mut envs = taken.envs;
        match reset_envs(&mut envs, agents) {
            Ok((obs, masks)) => {
                assert(masks@.len() == shard_masks_view(masks@).len());
                assert(obs@.len() == observed_masks(obs@).len());
                *self = ShardWorker { envs, agents, shard, masks };
                Ok(obs)
            },
            Err(e) => {
                *self = ShardWorker { envs, agents, shard, masks: Vec::new() };
                assert(self@.masks =~= Seq::<Seq<Option<ActionMaskView>>>::empty());
                Err(e)
            },
        }
    }

    /// Steps every environment of the shard once with the round's batch of raw
    /// actions. The batch is decoded first, for all instances of the shard,
    /// with the masks on record; no environment is stepped unless all of it
    /// decodes. An environment is reset at once where `wants_reset` holds of
    /// its step, and what it gave is published as `settle_step` says: a
    /// terminal step as the fresh observations with the reward and `done`
    /// flag of the terminal ones, any other step as it is. The masks of the
    /// observations handed back go on record. A shard without environments
    /// cannot fail.
    pub fn step_round(&mut self, batch: &Vec<Option<RaggedBuffer<i64>>>) -> (round: Result<
        Vec<Box<Observation<E::Scalar>>>,
        WorkerError,
    >)
        ensures
            final(self)@.shard == old(self)@.shard,
            final(self)@.agents == old(self)@.agents,
            final(self).environments().len() == old(self).environments().len(),
            match round {
                Ok(obs) => {
                    &&& old(self)@.has_masks()
                    &&& spec_decode_shard(
                        batch@,
                        old(self)@.masks,
                        old(self)@.shard.start as int,
                        old(self)@.shard.len as int,
                    ) is Ok
                    &&& obs@.len() == old(self)@.shard.len
                    &&& final(self)@.masks == observed_masks(obs@)
                },
                Err(WorkerError::StepBeforeReset) => {
                    &&& !old(self)@.has_masks()
                    &&& final(self)@.masks == old(self)@.masks
                    &&& old(self).environments().len() > 0
                },
                Err(WorkerError::Protocol(v)) => {
                    &&& old(self)@.has_masks()
                    &&& spec_decode_shard(
                        batch@,
                        old(self)@.masks,
                        old(self)@.shard.start as int,
                        old(self)@.shard.len as int,
                    ) == Err::<Seq<Seq<Option<ActionView>>>, ProtocolViolation>(v)
                    &&& final(self)@.masks == old(self)@.masks
                    &&& old(self).environments().len() > 0
                },
                Err(WorkerError::AgentCountMismatch) => {
                    &&& old(self)@.has_masks()
                    &&& spec_decode_shard(
                        batch@,
                        old(self)@.masks,
                        old(self)@.shard.start as int,
                        old(self)@.shard.len as int,
                    ) is Ok
                    &&& final(self)@.masks.len() == 0
                    &&& old(self).environments().len() > 0
                },
                Err(_) => false,
            },
    {
        proof {
            use_type_invariant(&*self);
        }
        proof {
            if self.envs@.len() == 0 {
                assert(self.envs@.len() * self.agents == 0) by (nonlinear_arith)
                    requires
                        self.envs@.len() == 0,
                ;
                assert(shard_masks_view(self.masks@).len() == 0);
            }
        }
        if self.masks.len() != self.shard.len {
            return Err(WorkerError::StepBeforeReset);
        }
        let actions = match decode_shard(batch, &self.masks, self.shard.start) {
            Ok(a) => a,
            Err(v) => {
                return Err(WorkerError::Protocol(v));
            },
        };
        proof {
            lemma_decoded_len(
                batch@,
                shard_masks_view(self.masks@),
                self.shard.start as int,
                self.masks@.len() as int,
            );
            assert(actions@.len() == shard_actions_view(actions@).len());
        }
        let mut taken = ShardWorker {
            envs: Vec::new(),
            agents: self.agents,
            shard: Shard { start: 0, len: 0 },
            masks: Vec::new(),
        };
        assert(0 * taken.agents == 0) by (nonlinear_arith);
        std::mem::swap(self, &mut taken);
        let agents = taken.agents;
        let shard = taken.shard;
        let mut envs = taken.envs;
        match step_envs(&mut envs, agents, &actions) {
            Ok((obs, masks)) => {
                assert(masks@.len() == shard_masks_view(masks@).len());
                assert(obs@.len() == observed_masks(obs@).len());
                *self = ShardWorker { envs, agents, shard, masks };
                Ok(obs)
            },
            Err(e) => {
                *self = ShardWorker { envs, agents, shard, masks: Vec::new() };
                assert(self@.masks =~= Seq::<Seq<Option<ActionMaskView>>>::empty());
                Err(e)
            },
        }
    }
}

} // verus!
