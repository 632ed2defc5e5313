use crate::low_level::env::Observation;
use atomicbox::AtomicOptionBox;
use std::sync::atomic::Ordering;
use vstd::prelude::*;

verus! {

/// `AtomicOptionBox` of atomicbox, opaque here: a box that threads can fill
/// and empty atomically.
#[verifier::external_type_specification]
#[verifier::external_body]
#[verifier::reject_recursive_types(T)]
pub struct ExAtomicOptionBox<T>(AtomicOptionBox<T>);

/// Calls `AtomicOptionBox::none` of atomicbox: a box that holds nothing.
/// Nothing is claimed of the box: it is opaque here.
#[verifier::external_body]
fn vacant<T>() -> AtomicOptionBox<T> {
    AtomicOptionBox::none()
}

/// Calls `AtomicOptionBox::store` of atomicbox with the ordering `SeqCst`,
/// one of the two on which it does not panic: puts `value` into the box and
/// drops what was there. Nothing is claimed of the box afterwards: other
/// threads may store and take at any time.
#[verifier::external_body]
fn fill<T>(slot: &AtomicOptionBox<T>, value: Box<T>) {
    slot.store(Some(value), Ordering::SeqCst)
}

/// Calls `AtomicOptionBox::take` of atomicbox with the ordering `SeqCst`, one
/// of the two on which it does not panic: empties the box and hands out what
/// was there. Nothing is claimed of the result: it depends on what other
/// threads stored.
#[verifier::external_body]
fn drain<T>(slot: &AtomicOptionBox<T>) -> Option<Box<T>> {
    slot.take(Ordering::SeqCst)
}

/// Why an observation could not be published or collected.
#[derive(Debug, Clone, Copy, PartialEq, Eq, Structural)]
pub enum SlotError {
    /// There is no slot for the global id.
    NoSuchSlot,
    /// A slot was read before it was filled.
    EmptySlot,
}

/// What the driver gets from the slots it emptied, given what each held, in
/// the order of the ids: the observations, where every slot held one. A slot
/// that held nothing is reported, not papered over.
#[verifier::loop_isolation(false)]
pub fn gather<F>(taken: Vec<Option<Box<Observation<F>>>>) -> (out: Result<
    Vec<Box<Observation<F>>>,
    SlotError,
>)
    ensures
        match out {
            Ok(obs) => obs@.len() == taken@.len() && forall|i: int|
                0 <= i < taken@.len() ==> #[trigger] taken@[i] == Some(obs@[i]),
            Err(e) => e == SlotError::EmptySlot && exists|i: int|
                0 <= i < taken@.len() && #[trigger] taken@[i] is None,
        },
{
    let ghost all = taken@;
    let mut rest = taken;
    let mut stack: Vec<Box<Observation<F>>> = Vec::new();
    while rest.len() > 0
        invariant
            rest@.len() + stack@.len() == all.len(),
            rest@ == all.take(rest@.len() as int),
            forall|k: int|
                0 <= k < stack@.len() ==> all[all.len() - 1 - k] == Some(#[trigger] stack@[k]),
        decreases rest@.len(),
    {
        let ghost at = rest@.len() - 1;
        match rest.pop() {
            Some(Some(o)) => {
                stack.push(o);
            },
            _ => {
                assert(all[at] is None);
                return Err(SlotError::EmptySlot);
            },
        }
        assert(rest@ =~= all.take(rest@.len() as int));
    }
    let n = stack.len();
    let mut obs: Vec<Box<Observation<F>>> = Vec::new();
    while stack.len() > 0
        invariant
            n == all.len(),
            obs@.len() + stack@.len() == n,
            forall|k: int| 0 <= k < stack@.len() ==> all[n - 1 - k] == Some(#[trigger] stack@[k]),
            forall|k: int| 0 <= k < obs@.len() ==> #[trigger] all[k] == Some(obs@[k]),
        decreases stack@.len(),
    {
        match stack.pop() {
            Some(o) => {
                obs.push(o);
            },
            None => {},
        }
    }
    Ok(obs)
}

/// The slot of each observation of a shard that starts at global id `start`:
/// observation `j` goes to slot `start + j`.
#[verifier::loop_isolation(false)]
pub fn placements<F>(start: usize, obs: Vec<Box<Observation<F>>>) -> (placed: Vec<
    (usize, Box<Observation<F>>),
>)
    requires
        start + obs@.len() <= usize::MAX,
    ensures
        placed@.len() == obs@.len(),
        forall|j: int| 0 <= j < obs@.len() ==> #[trigger] placed@[j] == (
            (start + j) as usize,
            obs@[j],
        ),
{
    let ghost all = obs@;
    let mut rest = obs;
    let mut stack: Vec<(usize, Box<Observation<F>>)> = Vec::new();
    while rest.len() > 0
        invariant
            start + all.len() <= usize::MAX,
            rest@.len() + stack@.len() == all.len(),
            rest@ == all.take(rest@.len() as int),
            forall|k: int|
                0 <= k < stack@.len() ==> #[trigger] stack@[k] == (
                    (start + all.len() - 1 - k) as usize,
                    all[all.len() - 1 - k],
                ),
        decreases rest@.len(),
    {
        let j = rest.len() - 1;
        match rest.pop() {
            Some(o) => {
                stack.push((start + j, o));
            },
            None => {},
        }
        assert(rest@ =~= all.take(rest@.len() as int));
    }
    let n = stack.len();
    let mut placed: Vec<(usize, Box<Observation<F>>)> = Vec::new();
    while stack.len() > 0
        invariant
            n == all.len(),
            start + n <= usize::MAX,
            placed@.len() + stack@.len() == n,
            forall|k: int|
                0 <= k < stack@.len() ==> #[trigger] stack@[k] == (
                    (start + n - 1 - k) as usize,
                    all[n - 1 - k],
                ),
            forall|k: int|
                0 <= k < placed@.len() ==> #[trigger] placed@[k] == ((start + k) as usize, all[k]),
        decreases stack@.len(),
    {
        match stack.pop() {
            Some(pair) => {
                placed.push(pair);
            },
            None => {},
        }
    }
    placed
}

/// One slot per global instance id, shared by the workers and the driver. In
/// a round each slot is filled by the one worker that owns its id, and
/// emptied by the driver once the round is complete.
#[verifier::reject_recursive_types(F)]
pub struct ObsSlots<F> {
    slots: Vec<AtomicOptionBox<Observation<F>>>,
}

impl<F> ObsSlots<F> {
    /// The number of slots.
    pub closed spec fn capacity(&self) -> nat {
        self.slots@.len()
    }

    /// `num_envs` empty slots.
    pub fn new(num_envs: usize) -> (slots: Self)
        ensures
            slots.capacity() == num_envs,
    {
        let mut slots: Vec<AtomicOptionBox<Observation<F>>> = Vec::new();
        let mut i: usize = 0;
        while i < num_envs
            invariant
                i <= num_envs,
                slots@.len() == i,
            decreases num_envs - i,
        {
            slots.push(vacant());
            i += 1;
        }
        ObsSlots { slots }
    }

    /// The number of slots.
    pub fn len(&self) -> (n: usize)
        ensures
            n == self.capacity(),
    {
        self.slots.len()
    }

    /// Puts the observations of a shard into the slots of its ids, as
    /// `placements` pairs them: the first into slot `start`, the next into the
    /// one after, and so on. Nothing is stored unless there is a slot for
    /// each.
    pub fn publish(&self, start: usize, obs: Vec<Box<Observation<F>>>) -> (stored: Result<
        (),
        SlotError,
    >)
        ensures
            match stored {
                Ok(()) => start + obs@.len() <= self.capacity(),
                Err(e) => e == SlotError::NoSuchSlot && start + obs@.len() > self.capacity(),
            },
    {
        let n = obs.len();
        let capacity = self.slots.len();
        if start > capacity || n > capacity - start {
            return Err(SlotError::NoSuchSlot);
        }
        let mut placed = placements(start, obs);
        while placed.len() > 0
            invariant
                capacity == self.slots@.len(),
                placed@.len() <= n,
                start + n <= capacity,
                forall|j: int| 0 <= j < placed@.len() ==> (#[trigger] placed@[j]).0 == start + j,
            decreases placed@.len(),
        {
            match placed.pop() {
                Some((slot, observation)) => {
                    fill(&self.slots[slot], observation);
                },
                None => {},
            }
        }
        Ok(())
    }

    /// Empties every slot, and hands out what `gather` makes of what they
    /// held, in the order of the ids. A slot that holds nothing is reported, not papered over; without
    /// slots there is nothing to miss.
    pub fn collect(&self) -> (taken: Result<Vec<Box<Observation<F>>>, SlotError>)
        ensures
            match taken {
                Ok(obs) => obs@.len() == self.capacity(),
                Err(e) => e == SlotError::EmptySlot && self.capacity() > 0,
            },
    {
        let mut taken: Vec<Option<Box<Observation<F>>>> = Vec::new();
        let mut i: usize = 0;
        while i < self.slots.len()
            invariant
                i <= self.slots@.len(),
                taken@.len() == i,
            decreases self.slots.len() - i,
        {
            taken.push(drain(&self.slots[i]));
            i += 1;
        }
        gather(taken)
    }
}

} // verus!
