use vstd::prelude::*;

verus! {

/// The instances that one worker owns: `len` consecutive global ids from
/// `start` on.
#[derive(Debug, Clone, Copy, PartialEq, Eq, Structural)]
pub struct Shard {
    pub start: usize,
    pub len: usize,
}

/// The number of instances of worker `thread`: an equal share, and one more
/// for each of the first `total % threads` workers.
pub open spec fn shard_len(total: nat, threads: nat, thread: nat) -> nat {
    if threads == 0 {
        0
    } else {
        total / threads + if thread < total % threads {
            1nat
        } else {
            0nat
        }
    }
}

/// The first global id of worker `thread`: the shares of all workers before it.
pub open spec fn shard_start(total: nat, threads: nat, thread: nat) -> nat {
    if threads == 0 {
        0
    } else {
        thread * (total / threads) + if thread < total % threads {
            thread
        } else {
            total % threads
        }
    }
}

/// Whether global id `id` belongs to worker `thread`.
pub open spec fn owns(total: nat, threads: nat, thread: nat, id: nat) -> bool {
    shard_start(total, threads, thread) <= id < shard_start(total, threads, thread) + shard_len(
        total,
        threads,
        thread,
    )
}

/// Whether some worker owns global id `id`.
pub open spec fn has_owner(total: nat, threads: nat, id: nat) -> bool {
    exists|t: nat| t < threads && #[trigger] owns(total, threads, t, id)
}

/// Each shard starts where the one before it ends; the first starts at id 0
/// and the last ends at `total`. So the shard sizes add up to `total`.
pub proof fn lemma_shards_end_to_end(total: nat, threads: nat)
    requires
        threads > 0,
    ensures
        shard_start(total, threads, 0) == 0,
        forall|t: nat|
            t < threads ==> #[trigger] shard_start(total, threads, t + 1) == shard_start(
                total,
                threads,
                t,
            ) + shard_len(total, threads, t),
        shard_start(total, threads, threads) == total,
{
    let q = total / threads;
    let r = total % threads;
    assert(0 * q == 0) by (nonlinear_arith);
    assert forall|t: nat| t < threads implies #[trigger] shard_start(total, threads, t + 1)
        == shard_start(total, threads, t) + shard_len(total, threads, t) by {
        assert((t + 1) * q == t * q + q) by (nonlinear_arith);
    }
    assert(r < threads) by {
        vstd::arithmetic::div_mod::lemma_mod_bound(total as int, threads as int);
    }
    assert(threads * q + r == total) by {
        vstd::arithmetic::div_mod::lemma_fundamental_div_mod(total as int, threads as int);
    }
}

/// The start of a shard never lies before the start of an earlier one.
pub proof fn lemma_shard_start_monotone(total: nat, threads: nat, a: nat, b: nat)
    requires
        threads > 0,
        a <= b <= threads,
    ensures
        shard_start(total, threads, a) <= shard_start(total, threads, b),
    decreases b - a,
{
    if a < b {
        lemma_shards_end_to_end(total, threads);
        lemma_shard_start_monotone(total, threads, a + 1, b);
        assert(shard_start(total, threads, a + 1) == shard_start(total, threads, a) + shard_len(
            total,
            threads,
            a,
        ));
    }
}

/// The shards partition the ids below `total`: no two workers own a common
/// id, and every id below `total` has an owner.
pub proof fn lemma_shards_partition(total: nat, threads: nat)
    requires
        threads > 0,
    ensures
        forall|a: nat, b: nat, id: nat|
            a < threads && b < threads && #[trigger] owns(total, threads, a, id) && #[trigger] owns(
                total,
                threads,
                b,
                id,
            ) ==> a == b,
        forall|id: nat| id < total ==> #[trigger] has_owner(total, threads, id),
        forall|t: nat, id: nat| t < threads && #[trigger] owns(total, threads, t, id) ==> id < total,
{
    lemma_shards_end_to_end(total, threads);
    assert forall|a: nat, b: nat, id: nat|
        a < threads && b < threads && #[trigger] owns(total, threads, a, id) && #[trigger] owns(
            total,
            threads,
            b,
            id,
        ) implies a == b by {
        if a < b {
            lemma_shard_start_monotone(total, threads, a + 1, b);
            assert(shard_start(total, threads, a + 1) == shard_start(total, threads, a)
                + shard_len(total, threads, a));
        } else if b < a {
            lemma_shard_start_monotone(total, threads, b + 1, a);
            assert(shard_start(total, threads, b + 1) == shard_start(total, threads, b)
                + shard_len(total, threads, b));
        }
    }
    assert forall|id: nat| id < total implies #[trigger] has_owner(total, threads, id) by {
        lemma_owner_exists(total, threads, id, threads);
    }
    assert forall|t: nat, id: nat| t < threads && #[trigger] owns(total, threads, t, id) implies id
        < total by {
        lemma_shard_start_monotone(total, threads, t + 1, threads);
        assert(shard_start(total, threads, t + 1) == shard_start(total, threads, t) + shard_len(
            total,
            threads,
            t,
        ));
    }
}

proof fn lemma_owner_exists(total: nat, threads: nat, id: nat, bound: nat)
    requires
        threads > 0,
        bound <= threads,
        id < shard_start(total, threads, bound),
    ensures
        exists|t: nat| t < bound && #[trigger] owns(total, threads, t, id),
    decreases bound,
{
    lemma_shards_end_to_end(total, threads);
    if bound == 0 {
    } else {
        let t = (bound - 1) as nat;
        assert(shard_start(total, threads, t + 1) == shard_start(total, threads, t) + shard_len(
            total,
            threads,
            t,
        ));
        if id >= shard_start(total, threads, t) {
            assert(owns(total, threads, t, id));
        } else {
            lemma_owner_exists(total, threads, id, t);
        }
    }
}

/// The shard of worker `thread` out of `threads`, for `total_envs` instances.
pub fn shard_of(total_envs: usize, threads: usize, thread: usize) -> (shard: Shard)
    requires
        thread < threads,
    ensures
        shard.start == shard_start(total_envs as nat, threads as nat, thread as nat),
        shard.len == shard_len(total_envs as nat, threads as nat, thread as nat),
        shard.start + shard.len <= total_envs,
{
    let base = total_envs / threads;
    let extra = total_envs % threads;
    proof {
        let total = total_envs as nat;
        let n = threads as nat;
        let t = thread as nat;
        lemma_shards_end_to_end(total, n);
        lemma_shard_start_monotone(total, n, t + 1, n);
        assert(shard_start(total, n, t + 1) == shard_start(total, n, t) + shard_len(total, n, t));
        assert(thread * base >= 0) by (nonlinear_arith)
            requires
                thread >= 0,
                base >= 0,
        ;
    }
    let len = if thread < extra {
        base + 1
    } else {
        base
    };
    let start = if thread < extra {
        thread * base + thread
    } else {
        thread * base + extra
    };
    Shard { start, len }
}

/// The shards of all workers, in worker order.
pub fn partition(total_envs: usize, threads: usize) -> (shards: Vec<Shard>)
    ensures
        shards@.len() == threads,
        forall|t: int|
            0 <= t < threads ==> (#[trigger] shards@[t]).start == shard_start(
                total_envs as nat,
                threads as nat,
                t as nat,
            ) && shards@[t].len == shard_len(total_envs as nat, threads as nat, t as nat),
{
    let mut shards: Vec<Shard> = Vec::new();
    let mut t: usize = 0;
    while t < threads
        invariant
            t <= threads,
            shards@.len() == t,
            forall|k: int|
                0 <= k < t ==> (#[trigger] shards@[k]).start == shard_start(
                    total_envs as nat,
                    threads as nat,
                    k as nat,
                ) && shards@[k].len == shard_len(total_envs as nat, threads as nat, k as nat),
        decreases threads - t,
    {
        shards.push(shard_of(total_envs, threads, t));
        t += 1;
    }
    shards
}

} // verus!
