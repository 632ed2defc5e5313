use std::sync::atomic::{AtomicUsize, Ordering};
use vstd::prelude::*;

verus! {

/// Whether the worker that added `shard_len` to the round's counter and got
/// `previous` back from that addition was the last to finish: the counter
/// stood at the total less its own share.
pub open spec fn spec_is_last(previous: nat, shard_len: nat, total: nat) -> bool {
    previous + shard_len == total
}

/// The decision each worker takes from the value that its own addition to the
/// counter returned, and from nothing read afterwards.
pub fn is_last_finisher(previous: usize, shard_len: usize, total_envs: usize) -> (last: bool)
    ensures
        last == spec_is_last(previous as nat, shard_len as nat, total_envs as nat),
{
    shard_len <= total_envs && previous == total_envs - shard_len
}

/// What a worker learns when it reports its shard done.
#[derive(Debug, Clone, Copy, PartialEq, Eq, Structural)]
pub struct Arrival {
    /// What the counter held before the worker added its share.
    pub previous: usize,
    /// Whether the worker was the last of the round to finish.
    pub last: bool,
}

/// The counter of a round, shared by all workers: each adds its share when its
/// shard is done and learns from that addition alone whether it was the last.
#[derive(Debug)]
pub struct StepBarrier {
    completed: AtomicUsize,
    total_envs: usize,
}

impl StepBarrier {
    /// The number of instances of a round.
    pub closed spec fn total(&self) -> nat {
        self.total_envs as nat
    }

    /// A barrier for rounds of `total_envs` instances, with nothing completed.
    pub fn new(total_envs: usize) -> (barrier: Self)
        ensures
            barrier.total() == total_envs,
    {
        StepBarrier { completed: AtomicUsize::new(0), total_envs }
    }

    /// The number of instances of a round.
    pub fn total_envs(&self) -> (total: usize)
        ensures
            total == self.total(),
    {
        self.total_envs
    }

    /// Starts a round: nothing is completed. The driver calls this before it
    /// hands out the round's tasks.
    pub fn begin_round(&self) {
        self.completed.store(0, Ordering::SeqCst);
    }

    /// A worker reports `shard_len` instances done: it adds them to the
    /// counter in one atomic step, and is told whether it was the last of the
    /// round. What the counter held before depends on the other workers; the
    /// answer is taken from what the addition itself returned.
    pub fn arrive(&self, shard_len: usize) -> (arrival: Arrival)
        ensures
            arrival.last == (arrival.previous + shard_len == self.total()),
    {
        let previous = self.completed.fetch_add(shard_len, Ordering::SeqCst);
        Arrival { previous, last: is_last_finisher(previous, shard_len, self.total_envs) }
    }
}

/// What the counter held before arrival `i`: the shares of the arrivals
/// before it.
pub open spec fn arrived_before(shares: Seq<nat>, i: int) -> nat
    decreases i,
{
    if i <= 0 {
        0
    } else {
        arrived_before(shares, i - 1) + shares[i - 1]
    }
}

proof fn lemma_arrived_strictly_grows(shares: Seq<nat>, i: int, j: int)
    requires
        forall|k: int| 0 <= k < shares.len() ==> shares[k] > 0,
        0 <= i < j <= shares.len(),
    ensures
        arrived_before(shares, i) < arrived_before(shares, j),
    decreases j,
{
    if i + 1 < j {
        lemma_arrived_strictly_grows(shares, i, j - 1);
    }
}

/// In whatever order the workers of a round finish, exactly one of them is
/// told that it was the last, and it is the one that arrived last: `shares`
/// holds the shard sizes in the order of arrival, none of them empty, and
/// together they make up the round's total.
pub proof fn lemma_exactly_one_last(shares: Seq<nat>, total: nat)
    requires
        forall|k: int| 0 <= k < shares.len() ==> shares[k] > 0,
        arrived_before(shares, shares.len() as int) == total,
    ensures
        forall|i: int|
            0 <= i < shares.len() ==> (#[trigger] spec_is_last(
                arrived_before(shares, i),
                shares[i],
                total,
            ) <==> i == shares.len() - 1),
{
    assert forall|i: int| 0 <= i < shares.len() implies (#[trigger] spec_is_last(
        arrived_before(shares, i),
        shares[i],
        total,
    ) <==> i == shares.len() - 1) by {
        assert(arrived_before(shares, i + 1) == arrived_before(shares, i) + shares[i]);
        if i + 1 < shares.len() {
            lemma_arrived_strictly_grows(shares, i + 1, shares.len() as int);
        }
    }
}

} // verus!
