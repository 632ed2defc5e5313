use entity_gym_rs::low_level::barrier::is_last_finisher;
use entity_gym_rs::low_level::decode::ProtocolViolation;
use entity_gym_rs::low_level::env::{
    Action, ActionMask, ActionSpace, CompactFeatures, Entity, ObsSpace, Observation,
};
use entity_gym_rs::low_level::ragged_buffer::RaggedBuffer;
use entity_gym_rs::low_level::shard::{partition, Shard};
use entity_gym_rs::low_level::slots::{gather, placements, ObsSlots, SlotError};
use entity_gym_rs::low_level::vec_env::{
    probe_spaces, task_of, ExecutorError, ServeError, Served, Task, VecEnv, VecEnvInner,
    PROBE_SEED,
};
use entity_gym_rs::low_level::worker::{
    episode_over, relabel_terminal, settle_reset, settle_step, wants_reset, Environment,
    ShardWorker, WorkerError,
};
use std::sync::Arc;

/// Counts its steps; an episode ends with the third.
struct Counter {
    seed: u64,
    count: u32,
    actors: Vec<u64>,
}

impl Counter {
    fn new(seed: u64) -> Counter {
        Counter { seed, count: 0, actors: vec![0] }
    }

    fn observe(&self) -> Box<Observation<f32>> {
        Box::new(Observation {
            features: CompactFeatures { counts: vec![1], data: vec![self.count as f32] },
            ids: vec![None],
            actions: vec![Some(ActionMask::DenseCategorical {
                actors: self.actors.clone(),
                mask: None,
            })],
            done: self.count >= 3,
            reward: self.count as f32,
            metrics: vec![("seed".to_string(), self.seed as f32)],
        })
    }
}

impl Environment for Counter {
    type Scalar = f32;

    fn obs_space(&self) -> ObsSpace {
        ObsSpace {
            entities: vec![("Counter".to_string(), Entity { features: vec!["count".to_string()] })],
        }
    }

    fn action_space(&self) -> Vec<(String, ActionSpace)> {
        vec![("tick".to_string(), ActionSpace::Categorical { choices: vec!["tick".to_string()] })]
    }

    fn agents() -> usize {
        1
    }

    fn reset(&mut self) -> Vec<Box<Observation<f32>>> {
        self.count = 0;
        vec![self.observe()]
    }

    fn act(&mut self, action: &[Vec<Option<Action>>]) -> Vec<Box<Observation<f32>>> {
        assert_eq!(action.len(), 1);
        self.count += 1;
        vec![self.observe()]
    }
}

fn constant_batch(rows: usize) -> Vec<Option<RaggedBuffer<i64>>> {
    let lengths = vec![1i64; rows];
    vec![Some(RaggedBuffer::from_lengths(vec![0i64; rows], &lengths, 1).unwrap())]
}

fn workers(total: usize, threads: usize) -> Vec<ShardWorker<Counter>> {
    (0..threads)
        .map(|t| ShardWorker::new(&|seed| Counter::new(seed), total, threads, t, 100).unwrap())
        .collect()
}

#[test]
fn end_to_end_eight_instances_two_workers() {
    let mut workers = workers(8, 2);
    assert_eq!(workers[0].shard(), Shard { start: 0, len: 4 });
    assert_eq!(workers[1].shard(), Shard { start: 4, len: 4 });
    let mut first = Vec::new();
    for w in workers.iter_mut() {
        first.extend(w.reset_round().unwrap());
    }
    assert_eq!(first.len(), 8);
    assert!(first.iter().all(|o| !o.done));
    let batch = constant_batch(8);
    let mut last = Vec::new();
    for round in 0..3 {
        last.clear();
        let mut completed = 0;
        let mut signals = 0;
        for w in workers.iter_mut() {
            last.extend(w.step_round(&batch).unwrap());
            if is_last_finisher(completed, w.shard().len, 8) {
                signals += 1;
            }
            completed += w.shard().len;
        }
        assert_eq!(signals, 1);
        if round < 2 {
            assert!(last.iter().all(|o| !o.done));
        }
    }
    assert_eq!(last.iter().map(|o| o.done).collect::<Vec<_>>(), vec![true; 8]);
    assert!(last.iter().all(|o| o.reward == 3.0));
    assert!(last.iter().all(|o| o.features.data == vec![0.0]));
}

#[test]
fn reset_twice_gives_two_valid_batches() {
    let mut workers = workers(5, 2);
    let mut a = Vec::new();
    let mut b = Vec::new();
    for w in workers.iter_mut() {
        a.extend(w.reset_round().unwrap());
    }
    for w in workers.iter_mut() {
        b.extend(w.reset_round().unwrap());
    }
    assert_eq!(a.len(), 5);
    assert_eq!(b.len(), 5);
    for (x, y) in a.iter().zip(b.iter()) {
        assert!(!x.done && !y.done);
        assert_eq!(x.features.counts, y.features.counts);
        assert_eq!(x.features.data.len(), y.features.data.len());
    }
}

#[test]
fn seeds_follow_the_global_index() {
    let workers = workers(5, 2);
    let seeds: Vec<u64> =
        workers.iter().flat_map(|w| w.envs().iter().map(|e| e.seed)).collect();
    assert_eq!(seeds, vec![100, 101, 102, 103, 104]);
    assert_eq!(partition(5, 2), vec![Shard { start: 0, len: 3 }, Shard { start: 3, len: 2 }]);
}

#[test]
fn step_before_reset_is_refused() {
    let mut workers = workers(2, 1);
    let batch = constant_batch(2);
    assert_eq!(workers[0].step_round(&batch).err(), Some(WorkerError::StepBeforeReset));
}

#[test]
fn stale_actor_is_a_protocol_violation() {
    let mut workers = workers(2, 1);
    workers[0].reset_round().unwrap();
    let lengths = vec![1i64, 2];
    let batch = vec![Some(RaggedBuffer::from_lengths(vec![0i64, 0, 0], &lengths, 1).unwrap())];
    assert_eq!(
        workers[0].step_round(&batch).err(),
        Some(WorkerError::Protocol(ProtocolViolation::StaleActor))
    );
}

/// Two agents share one instance; it gives as many observations as it is told.
struct Pair {
    given: usize,
}

impl Environment for Pair {
    type Scalar = f32;

    fn obs_space(&self) -> ObsSpace {
        ObsSpace { entities: vec![] }
    }

    fn action_space(&self) -> Vec<(String, ActionSpace)> {
        vec![]
    }

    fn agents() -> usize {
        2
    }

    fn reset(&mut self) -> Vec<Box<Observation<f32>>> {
        (0..self.given).map(|_| Counter::new(0).observe()).collect()
    }

    fn act(&mut self, _action: &[Vec<Option<Action>>]) -> Vec<Box<Observation<f32>>> {
        self.reset()
    }
}

#[test]
fn a_shard_holds_whole_environments() {
    let made = ShardWorker::new(&|_| Pair { given: 2 }, 8, 2, 0, 0).unwrap();
    assert_eq!(made.agents(), 2);
    assert_eq!(made.envs().len(), 2);
    assert_eq!(
        ShardWorker::new(&|_| Pair { given: 2 }, 6, 2, 0, 0).err(),
        Some(WorkerError::AgentsDoNotDivide)
    );
    assert_eq!(
        ShardWorker::new(&|_| Pair { given: 2 }, 8, 2, 2, 0).err(),
        Some(WorkerError::NoSuchThread)
    );
    assert_eq!(
        ShardWorker::new(&|seed| Counter::new(seed), 4, 2, 1, u64::MAX - 2).err(),
        Some(WorkerError::SeedOverflow)
    );
    let edge = ShardWorker::new(&|seed| Counter::new(seed), 4, 2, 1, u64::MAX - 3).unwrap();
    assert_eq!(edge.envs()[1].seed, u64::MAX);
}

#[test]
fn an_environment_that_gives_too_few_observations_fails_the_round() {
    let mut worker = ShardWorker::new(&|_| Pair { given: 1 }, 4, 1, 0, 0).unwrap();
    assert_eq!(worker.reset_round().err(), Some(WorkerError::AgentCountMismatch));
    assert_eq!(worker.step_round(&vec![]).err(), Some(WorkerError::StepBeforeReset));
    let mut worker = ShardWorker::new(&|_| Pair { given: 2 }, 4, 1, 0, 0).unwrap();
    assert_eq!(worker.reset_round().map(|o| o.len()), Ok(4));
    assert_eq!(worker.step_round(&vec![]).map(|o| o.len()), Ok(4));
}

#[test]
fn a_terminal_step_is_reported_with_the_next_start() {
    let mut env = Counter::new(0);
    env.count = 2;
    let last = env.act(&[vec![]]);
    assert!(episode_over(&last));
    let fresh = env.reset();
    assert!(!episode_over(&fresh));
    assert!(!episode_over(&Vec::<Box<Observation<f32>>>::new()));
    let out = relabel_terminal(fresh, &last);
    assert_eq!(out.len(), 1);
    assert!(out[0].done);
    assert_eq!(out[0].reward, 3.0);
    assert_eq!(out[0].features.data, vec![0.0]);
    assert_eq!(out[0].metrics, vec![("seed".to_string(), 0.0)]);
    let untouched = relabel_terminal(Counter::new(0).reset(), &Vec::new());
    assert!(!untouched[0].done);
    assert_eq!(untouched[0].reward, 0.0);
}

#[test]
fn slots_hand_out_what_was_published() {
    assert_eq!(ObsSlots::<f32>::new(0).collect().map(|o| o.len()), Ok(0));
    assert_eq!(VecEnvInner::<f32>::new(0).0.collect().map(|o| o.len()), Ok(0));
    let slots = ObsSlots::<f32>::new(3);
    assert_eq!(slots.len(), 3);
    assert_eq!(slots.collect().err(), Some(SlotError::EmptySlot));
    let mut a = Counter::new(0);
    a.count = 1;
    let mut b = Counter::new(0);
    b.count = 2;
    assert_eq!(slots.publish(1, vec![a.observe(), b.observe()]), Ok(()));
    assert_eq!(slots.publish(0, vec![Counter::new(0).observe()]), Ok(()));
    let obs = slots.collect().unwrap();
    assert_eq!(obs.iter().map(|o| o.reward).collect::<Vec<_>>(), vec![0.0, 1.0, 2.0]);
    assert_eq!(slots.collect().err(), Some(SlotError::EmptySlot));
    assert_eq!(slots.publish(2, vec![a.observe(), b.observe()]), Err(SlotError::NoSuchSlot));
    assert_eq!(slots.publish(4, vec![]), Err(SlotError::NoSuchSlot));
    assert_eq!(slots.publish(3, vec![]), Ok(()));
    assert_eq!(slots.collect().err(), Some(SlotError::EmptySlot));
}

#[test]
fn workers_serve_a_round_and_the_last_wakes_the_driver() {
    let (inner, parker) = VecEnvInner::<f32>::new(5);
    let inner = Arc::new(inner);
    assert_eq!(inner.num_envs(), 5);
    let mut shard = workers(5, 2);
    let (first, second) = shard.split_at_mut(1);
    let (tx0, rx0) = crossbeam_channel::bounded(1);
    let (tx1, rx1) = crossbeam_channel::bounded(1);
    let spaces = probe_spaces(&|seed| {
        assert_eq!(seed, PROBE_SEED);
        Counter::new(seed)
    });
    assert_eq!(spaces.num_feats, vec![1]);
    let mut env = VecEnv::from_parts(inner.clone(), parker, vec![tx0, tx1], spaces);
    assert_eq!(env.num_envs(), 5);
    assert_eq!(env.num_feats(), &vec![1]);
    assert_eq!(env.obs_space().entities[0].0, "Counter");
    assert_eq!(env.action_space()[0].0, "tick");

    assert_eq!(inner.serve(&mut first[0], &Task::Exit), Ok(Served::Exit));
    inner.begin_round();
    assert_eq!(inner.serve(&mut second[0], &Task::Reset), Ok(Served::Round { wake: false }));
    assert_eq!(inner.serve(&mut first[0], &Task::Reset), Ok(Served::Round { wake: true }));
    let obs = env.reset().unwrap();
    assert_eq!(obs.len(), 5);
    assert!(obs.iter().all(|o| !o.done));
    assert_eq!(
        obs.iter().map(|o| o.metrics[0].1).collect::<Vec<_>>(),
        vec![100.0, 101.0, 102.0, 103.0, 104.0]
    );
    assert!(matches!(rx0.try_recv(), Ok(Task::Reset)));
    assert!(matches!(rx1.try_recv(), Ok(Task::Reset)));

    let batch = Arc::new(constant_batch(5));
    let task = Task::RawBatchAct(batch.clone());
    assert_eq!(inner.serve(&mut first[0], &task), Ok(Served::Round { wake: false }));
    assert_eq!(inner.serve(&mut second[0], &task), Ok(Served::Round { wake: true }));
    let obs = env.act(constant_batch(5)).unwrap();
    assert_eq!(obs.iter().map(|o| o.reward).collect::<Vec<_>>(), vec![1.0; 5]);
    assert!(matches!(rx0.try_recv(), Ok(Task::RawBatchAct(_))));
    assert!(matches!(rx1.try_recv(), Ok(Task::RawBatchAct(_))));

    env.shutdown();
    assert!(matches!(rx0.try_recv(), Ok(Task::Exit)));
    assert!(matches!(rx1.try_recv(), Ok(Task::Exit)));
    drop(rx0);
    env.shutdown();
    assert_eq!(env.reset().err(), Some(ExecutorError::WorkerGone));
}

#[test]
fn a_worker_reports_why_it_cannot_serve() {
    let (inner, _parker) = VecEnvInner::<f32>::new(3);
    let mut shard = workers(4, 1);
    assert_eq!(
        inner.serve(&mut shard[0], &Task::Reset),
        Err(ServeError::Slots(SlotError::NoSuchSlot))
    );
    let (inner, _parker) = VecEnvInner::<f32>::new(4);
    let mut fresh = workers(4, 1);
    assert_eq!(
        inner.serve(&mut fresh[0], &Task::RawBatchAct(Arc::new(constant_batch(4)))),
        Err(ServeError::Worker(WorkerError::StepBeforeReset))
    );
    assert_eq!(inner.serve(&mut fresh[0], &Task::Reset), Ok(Served::Round { wake: true }));
    assert_eq!(
        inner.serve(&mut fresh[0], &Task::RawBatchAct(Arc::new(constant_batch(3)))),
        Err(ServeError::Worker(WorkerError::Protocol(ProtocolViolation::MissingRow)))
    );
}

#[test]
fn a_mask_is_stale_one_round_later() {
    let mut worker = ShardWorker::new(&|seed| Counter::new(seed), 1, 1, 0, 0).unwrap();
    worker.reset_round().unwrap();
    let two_actors = vec![Some(RaggedBuffer::from_lengths(vec![0i64, 0], &[2], 1).unwrap())];
    assert_eq!(
        worker.step_round(&two_actors).err(),
        Some(WorkerError::Protocol(ProtocolViolation::StaleActor))
    );
    assert_eq!(worker.step_round(&constant_batch(1)).map(|o| o.len()), Ok(1));
}

fn seen(count: u32) -> Box<Observation<f32>> {
    let mut env = Counter::new(9);
    env.count = count;
    env.observe()
}

#[test]
fn a_step_that_goes_on_is_published_as_it_is() {
    let stepped = vec![seen(1), seen(2)];
    assert!(!wants_reset(&stepped, 2));
    let out = settle_step(stepped, None, 2).unwrap();
    assert_eq!(out.iter().map(|o| (o.reward, o.done)).collect::<Vec<_>>(), vec![(1.0, false), (2.0, false)]);
    assert_eq!(out[1].features.data, vec![2.0]);
    let out = settle_step(vec![seen(1)], Some(vec![seen(0)]), 1).unwrap();
    assert_eq!((out[0].reward, out[0].features.data.clone()), (1.0, vec![1.0]));
}

#[test]
fn a_step_that_ends_the_episode_is_published_as_the_next_start() {
    let stepped = vec![seen(3), seen(1)];
    assert!(wants_reset(&stepped, 2));
    assert!(!wants_reset(&stepped, 3));
    assert!(!wants_reset(&Vec::<Box<Observation<f32>>>::new(), 0));
    let out = settle_step(stepped, Some(vec![seen(0), seen(0)]), 2).unwrap();
    assert_eq!(out.iter().map(|o| (o.reward, o.done)).collect::<Vec<_>>(), vec![(3.0, true), (1.0, false)]);
    assert!(out.iter().all(|o| o.features.data == vec![0.0]));
}

#[test]
fn a_list_of_another_length_than_the_agents_fails_the_round() {
    let mismatch = Some(WorkerError::AgentCountMismatch);
    assert_eq!(settle_step(vec![seen(1)], None, 2).err(), mismatch);
    assert_eq!(settle_step(vec![seen(3)], None, 1).err(), mismatch);
    assert_eq!(settle_step(vec![seen(3)], Some(vec![]), 1).err(), mismatch);
    assert_eq!(settle_step(vec![seen(3)], Some(vec![seen(0), seen(0)]), 1).err(), mismatch);
    assert_eq!(settle_step(Vec::<Box<Observation<f32>>>::new(), None, 0).map(|o| o.len()), Ok(0));
    assert_eq!(settle_reset(vec![seen(0)], 2).err(), mismatch);
    assert_eq!(settle_reset(vec![seen(0), seen(5)], 2).map(|o| o[1].reward), Ok(5.0));
}

#[test]
fn a_shard_without_environments_cannot_fail() {
    let mut worker = ShardWorker::new(&|seed| Counter::new(seed), 1, 2, 1, 0).unwrap();
    assert_eq!(worker.shard(), Shard { start: 1, len: 0 });
    assert_eq!(worker.step_round(&vec![]).map(|o| o.len()), Ok(0));
    assert_eq!(worker.reset_round().map(|o| o.len()), Ok(0));
    assert_eq!(worker.step_round(&constant_batch(0)).map(|o| o.len()), Ok(0));
}

#[test]
fn observations_are_paired_with_the_slots_of_their_ids() {
    let placed = placements(5, vec![seen(1), seen(2), seen(3)]);
    assert_eq!(
        placed.iter().map(|(slot, o)| (*slot, o.reward)).collect::<Vec<_>>(),
        vec![(5, 1.0), (6, 2.0), (7, 3.0)]
    );
    assert!(placements::<f32>(usize::MAX, vec![]).is_empty());
}

#[test]
fn what_the_slots_held_is_handed_out_in_order() {
    let obs = gather(vec![Some(seen(1)), Some(seen(2)), Some(seen(3))]).unwrap();
    assert_eq!(obs.iter().map(|o| o.reward).collect::<Vec<_>>(), vec![1.0, 2.0, 3.0]);
    assert_eq!(gather(vec![Some(seen(1)), None, Some(seen(3))]).err(), Some(SlotError::EmptySlot));
    assert_eq!(gather(vec![None::<Box<Observation<f32>>>]).err(), Some(SlotError::EmptySlot));
    assert_eq!(gather::<f32>(vec![]).map(|o| o.len()), Ok(0));
}

#[test]
fn every_worker_gets_the_same_batch() {
    let actions = Arc::new(constant_batch(3));
    assert!(matches!(task_of(true, &actions), Task::Reset));
    match task_of(false, &actions) {
        Task::RawBatchAct(batch) => assert!(Arc::ptr_eq(&batch, &actions)),
        _ => panic!("not a step"),
    }
}
