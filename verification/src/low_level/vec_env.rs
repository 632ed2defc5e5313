use crate::low_level::barrier::StepBarrier;
use crate::low_level::decode::ProtocolViolation;
use crate::low_level::env::{ActionSpace, ActionType, ActionView, ObsSpace, Observation};
use crate::low_level::ragged_buffer::RaggedBuffer;
use crate::low_level::slots::{ObsSlots, SlotError};
use crate::low_level::vec_obs::{num_feats, spec_widths};
use crate::low_level::worker::{spec_decode_shard, Environment, ShardWorker, WorkerError};
use crate::sync::{another, park, parker_pair, send, unpark};
use crossbeam::sync::{Parker, Unparker};
use crossbeam_channel::Sender;
use std::sync::Arc;
use vstd::prelude::*;

verus! {

/// The seed of the environment that is made only to be asked for its spaces:
/// far from the seeds of the instances of a round.
pub const PROBE_SEED: u64 = 99999;

/// What the driver asks of a worker.
pub enum Task {
    /// Stop serving.
    Exit,
    /// Reset every instance of the shard.
    Reset,
    /// Step every instance of the shard with the round's raw actions: one
    /// buffer per action type, with one row per global instance id.
    RawBatchAct(Arc<Vec<Option<RaggedBuffer<i64>>>>),
}

/// The task that the driver hands to each worker for a round: a reset, or a
/// step with the round's batch, which every worker's task shares.
pub fn task_of(reset: bool, actions: &Arc<Vec<Option<RaggedBuffer<i64>>>>) -> (task: Task)
    ensures
        match task {
            Task::Reset => reset,
            Task::RawBatchAct(batch) => !reset && batch == *actions,
            Task::Exit => false,
        },
{
    if reset {
        Task::Reset
    } else {
        Task::RawBatchAct(another(actions))
    }
}

/// What became of a task.
#[derive(Debug, Clone, Copy, PartialEq, Eq, Structural)]
pub enum Served {
    /// The worker is to stop.
    Exit,
    /// The shard's part of the round is published. `wake` tells the worker
    /// whether it was the last to finish and has to wake the driver.
    Round { wake: bool },
}

/// Why a worker could not serve a task.
#[derive(Debug, Clone, Copy, PartialEq, Eq, Structural)]
pub enum ServeError {
    Worker(WorkerError),
    Slots(SlotError),
}

/// What the driver and the workers of an executor share: the slots for the
/// observations of a round, the round's counter, and the handle that wakes
/// the driver.
#[verifier::reject_recursive_types(F)]
pub struct VecEnvInner<F> {
    obs: ObsSlots<F>,
    completed: StepBarrier,
    wake_obs: Unparker,
}

impl<F> VecEnvInner<F> {
    /// Holds of every executor state that exists at run time: the counter is
    /// for as many instances as there are slots.
    #[verifier::type_invariant]
    pub closed spec fn well_formed(&self) -> bool {
        self.obs.capacity() == self.completed.total()
    }

    /// The number of instances.
    pub closed spec fn instances(&self) -> nat {
        self.obs.capacity()
    }

    /// The shared state of an executor for `num_envs` instances, and the
    /// parker on which its driver waits for a round to complete.
    pub fn new(num_envs: usize) -> (made: (Self, Parker))
        ensures
            made.0.instances() == num_envs,
    {
        let (parker, wake_obs) = parker_pair();
        let inner = VecEnvInner {
            obs: ObsSlots::new(num_envs),
            completed: StepBarrier::new(num_envs),
            wake_obs,
        };
        (inner, parker)
    }

    /// The number of instances.
    pub fn num_envs(&self) -> (n: usize)
        ensures
            n == self.instances(),
    {
        self.obs.len()
    }

    /// The driver's first step of a round, before it hands out the tasks:
    /// nothing is completed.
    pub fn begin_round(&self) {
        self.completed.begin_round();
    }

    /// The driver's last step of a round, after the last worker woke it: takes
    /// the observation of every instance out of its slot, in the order of the
    /// global ids.
    pub fn collect(&self) -> (taken: Result<Vec<Box<Observation<F>>>, SlotError>)
        ensures
            match taken {
                Ok(obs) => obs@.len() == self.instances(),
                Err(e) => e == SlotError::EmptySlot && self.instances() > 0,
            },
    {
        self.obs.collect()
    }

    /// A worker's answer to one task. For a round it resets or steps its
    /// shard, publishes the observations into the slots of its ids, and only
    /// then reports its share to the round's counter. The worker that the
    /// counter tells to have been the last wakes the driver.
    pub fn serve<E: Environment<Scalar = F>>(&self, worker: &mut ShardWorker<E>, task: &Task) -> (served:
        Result<Served, ServeError>)
        ensures
            final(worker)@.shard == old(worker)@.shard,
            final(worker)@.agents == old(worker)@.agents,
            match (task, served) {
                (Task::Exit, s) => s == Ok::<Served, ServeError>(Served::Exit) && final(worker)@
                    == old(worker)@,
                (Task::Reset, Ok(s)) => {
                    &&& s is Round
                    &&& final(worker)@.has_masks()
                    &&& old(worker)@.shard.start + old(worker)@.shard.len <= self.instances()
                },
                (Task::RawBatchAct(batch), Ok(s)) => {
                    &&& s is Round
                    &&& old(worker)@.has_masks()
                    &&& spec_decode_shard(
                        batch@,
                        old(worker)@.masks,
                        old(worker)@.shard.start as int,
                        old(worker)@.shard.len as int,
                    ) is Ok
                    &&& final(worker)@.has_masks()
                    &&& old(worker)@.shard.start + old(worker)@.shard.len <= self.instances()
                },
                (_, Err(ServeError::Slots(e))) => {
                    &&& e == SlotError::NoSuchSlot
                    &&& old(worker)@.shard.start + old(worker)@.shard.len > self.instances()
                },
                (Task::Reset, Err(ServeError::Worker(e))) => e == WorkerError::AgentCountMismatch,
                (Task::RawBatchAct(batch), Err(ServeError::Worker(e))) => match e {
                    WorkerError::StepBeforeReset => !old(worker)@.has_masks(),
                    WorkerError::Protocol(v) => old(worker)@.has_masks() && spec_decode_shard(
                        batch@,
                        old(worker)@.masks,
                        old(worker)@.shard.start as int,
                        old(worker)@.shard.len as int,
                    ) == Err::<Seq<Seq<Option<ActionView>>>, ProtocolViolation>(v),
                    WorkerError::AgentCountMismatch => old(worker)@.has_masks(),
                    _ => false,
                },
            },
    {
        let round = match task {
            Task::Exit => {
                return Ok(Served::Exit);
            },
            Task::Reset => worker.reset_round(),
            Task::RawBatchAct(batch) => worker.step_round(&**batch),
        };
        let obs = match round {
            Ok(obs) => obs,
            Err(e) => {
                return Err(ServeError::Worker(e));
            },
        };
        let shard = worker.shard();
        match self.obs.publish(shard.start, obs) {
            Ok(()) => {},
            Err(e) => {
                return Err(ServeError::Slots(e));
            },
        }
        let wake = self.completed.arrive(shard.len).last;
        if wake {
            unpark(&self.wake_obs);
        }
        Ok(Served::Round { wake })
    }
}

/// Why the driver could not complete a round.
#[derive(Debug, Clone, Copy, PartialEq, Eq, Structural)]
pub enum ExecutorError {
    /// A worker no longer takes tasks.
    WorkerGone,
    /// The round was reported complete, and a slot holds no observation.
    EmptySlot,
}

/// The executor as its driver sees it: one task channel per worker, the state
/// shared with the workers, and what is known of the environments. A round
/// is one call of `reset` or `act`; no two rounds are in flight at once.
#[verifier::reject_recursive_types(F)]
pub struct VecEnv<F> {
    inner: Arc<VecEnvInner<F>>,
    tasks: Vec<Sender<Task>>,
    wait_on_obs: Parker,
    spaces: Spaces,
    num_envs: usize,
}

impl<F> VecEnv<F> {
    /// The number of instances that a round returns observations for.
    pub closed spec fn instances(&self) -> nat {
        self.inner.instances()
    }

    /// The number of workers.
    pub closed spec fn workers(&self) -> nat {
        self.tasks@.len()
    }

    /// What is known of the environments.
    pub closed spec fn spaces(&self) -> Spaces {
        self.spaces
    }

    /// Holds of every executor that exists at run time.
    #[verifier::type_invariant]
    pub closed spec fn well_formed(&self) -> bool {
        self.num_envs == self.inner.instances()
    }

    /// The driver's side of an executor whose workers already serve the
    /// receiving ends of `tasks` with the shared state `inner`.
    pub fn from_parts(
        inner: Arc<VecEnvInner<F>>,
        wait_on_obs: Parker,
        tasks: Vec<Sender<Task>>,
        spaces: Spaces,
    ) -> (env: Self)
        ensures
            env.instances() == inner.instances(),
            env.workers() == tasks@.len(),
            env.spaces() == spaces,
    {
        let num_envs = inner.num_envs();
        VecEnv { inner, tasks, wait_on_obs, spaces, num_envs }
    }

    /// The number of instances.
    pub fn num_envs(&self) -> (n: usize)
        ensures
            n == self.instances(),
    {
        proof {
            use_type_invariant(self);
        }
        self.num_envs
    }

    /// The width of each entity type.
    pub fn num_feats(&self) -> (widths: &Vec<usize>)
        ensures
            *widths == self.spaces().num_feats,
    {
        &self.spaces.num_feats
    }

    /// The observation space of the environments.
    pub fn obs_space(&self) -> (space: &ObsSpace)
        ensures
            *space == self.spaces().obs_space,
    {
        &self.spaces.obs_space
    }

    /// The action types of the environments with their spaces.
    pub fn action_space(&self) -> (space: &Vec<(ActionType, ActionSpace)>)
        ensures
            *space == self.spaces().action_space,
    {
        &self.spaces.action_space
    }

    /// Starts the round, hands every worker its task, waits to be woken, and
    /// takes the observations out of the slots.
    fn round(&self, reset: bool, actions: Arc<Vec<Option<RaggedBuffer<i64>>>>) -> (obs: Result<
        Vec<Box<Observation<F>>>,
        ExecutorError,
    >)
        ensures
            match obs {
                Ok(o) => o@.len() == self.instances(),
                Err(ExecutorError::WorkerGone) => self.workers() > 0,
                Err(ExecutorError::EmptySlot) => self.instances() > 0,
            },
    {
        self.inner.begin_round();
        let mut i: usize = 0;
        while i < self.tasks.len()
            invariant
                i <= self.tasks@.len(),
            decreases self.tasks.len() - i,
        {
            if !send(&self.tasks[i], task_of(reset, &actions)) {
                return Err(ExecutorError::WorkerGone);
            }
            i += 1;
        }
        park(&self.wait_on_obs);
        match self.inner.collect() {
            Ok(o) => Ok(o),
            Err(_) => Err(ExecutorError::EmptySlot),
        }
    }

    /// Runs one round that resets every instance, and returns the first
    /// observation of each, in the order of the global ids. Blocks until the
    /// last worker reports its shard done. The round fails where a worker no
    /// longer takes its task, or where a slot is empty after the round was
    /// reported complete; so it cannot fail without a worker and an instance.
    pub fn reset(&mut self) -> (obs: Result<Vec<Box<Observation<F>>>, ExecutorError>)
        ensures
            final(self).instances() == old(self).instances(),
            final(self).workers() == old(self).workers(),
            match obs {
                Ok(o) => o@.len() == old(self).instances(),
                Err(ExecutorError::WorkerGone) => old(self).workers() > 0,
                Err(ExecutorError::EmptySlot) => old(self).instances() > 0,
            },
    {
        self.round(true, Arc::new(Vec::new()))
    }

    /// Runs one round that steps every instance with the given raw actions:
    /// one buffer per action type, with one row per global instance id. The
    /// workers share the batch; none copies it. Returns the observation of
    /// each instance, in the order of the global ids. Blocks until the last
    /// worker reports its shard done. The round fails as a reset does.
    pub fn act(&mut self, actions: Vec<Option<RaggedBuffer<i64>>>) -> (obs: Result<
        Vec<Box<Observation<F>>>,
        ExecutorError,
    >)
        ensures
            final(self).instances() == old(self).instances(),
            final(self).workers() == old(self).workers(),
            match obs {
                Ok(o) => o@.len() == old(self).instances(),
                Err(ExecutorError::WorkerGone) => old(self).workers() > 0,
                Err(ExecutorError::EmptySlot) => old(self).instances() > 0,
            },
    {
        self.round(false, Arc::new(actions))
    }

    /// Tells every worker to stop. A worker that is gone already is passed
    /// over.
    pub fn shutdown(&self) {
        let mut i: usize = 0;
        while i < self.tasks.len()
            invariant
                i <= self.tasks@.len(),
            decreases self.tasks.len() - i,
        {
            let _ = send(&self.tasks[i], Task::Exit);
            i += 1;
        }
    }
}

/// What an executor knows of its environments without asking them again.
pub struct Spaces {
    /// The width of each entity type.
    pub num_feats: Vec<usize>,
    pub obs_space: ObsSpace,
    pub action_space: Vec<(ActionType, ActionSpace)>,
}

/// Makes one environment from the probe seed, asks it for its spaces, and
/// lets it go.
pub fn probe_spaces<E: Environment, Fac: Fn(u64) -> E>(factory: &Fac) -> (spaces: Spaces)
    requires
        call_requires(*factory, (PROBE_SEED,)),
    ensures
        exists|env: E|
            {
                &&& call_ensures(*factory, (PROBE_SEED,), env)
                &&& call_ensures(E::obs_space, (&env,), spaces.obs_space)
                &&& call_ensures(E::action_space, (&env,), spaces.action_space)
            },
        spaces.num_feats@.len() == spaces.obs_space@.len(),
        forall|i: int|
            0 <= i < spaces.num_feats@.len() ==> spaces.num_feats@[i] == spec_widths(
                spaces.obs_space@,
            )[i],
{
    let env = factory(PROBE_SEED);
    let obs_space = env.obs_space();
    let action_space = env.action_space();
    let num_feats = num_feats(&obs_space);
    Spaces { num_feats, obs_space, action_space }
}

} // verus!
