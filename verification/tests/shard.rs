use entity_gym_rs::low_level::barrier::{is_last_finisher, Arrival, StepBarrier};
use entity_gym_rs::low_level::shard::{partition, shard_of, Shard};

#[test]
fn shards_partition_the_ids() {
    for total in 0..40usize {
        for threads in 1..9usize {
            let shards = partition(total, threads);
            assert_eq!(shards.len(), threads);
            let mut next = 0;
            for (t, shard) in shards.iter().enumerate() {
                assert_eq!(*shard, shard_of(total, threads, t));
                assert_eq!(shard.start, next);
                let base = total / threads;
                assert!(shard.len == base || shard.len == base + 1);
                assert_eq!(shard.len == base + 1, t < total % threads);
                next += shard.len;
            }
            assert_eq!(next, total);
        }
    }
}

#[test]
fn the_remainder_goes_to_the_first_shards() {
    assert_eq!(
        partition(10, 4),
        vec![
            Shard { start: 0, len: 3 },
            Shard { start: 3, len: 3 },
            Shard { start: 6, len: 2 },
            Shard { start: 8, len: 2 },
        ]
    );
    assert_eq!(shard_of(8, 2, 1), Shard { start: 4, len: 4 });
    assert_eq!(shard_of(1, 3, 0), Shard { start: 0, len: 1 });
    assert_eq!(shard_of(1, 3, 2), Shard { start: 1, len: 0 });
    assert_eq!(shard_of(usize::MAX, 2, 1), Shard { start: usize::MAX / 2 + 1, len: usize::MAX / 2 });
    assert!(partition(5, 0).is_empty());
}

#[test]
fn only_the_return_value_of_the_addition_decides() {
    assert!(is_last_finisher(7, 3, 10));
    assert!(!is_last_finisher(6, 3, 10));
    assert!(!is_last_finisher(8, 3, 10));
    assert!(!is_last_finisher(0, 11, 10));
    assert!(is_last_finisher(0, 10, 10));
    assert!(is_last_finisher(0, 0, 0));
    assert!(!is_last_finisher(usize::MAX, 1, 0));
}

fn permutations(items: &[usize]) -> Vec<Vec<usize>> {
    if items.len() <= 1 {
        return vec![items.to_vec()];
    }
    let mut all = Vec::new();
    for i in 0..items.len() {
        let mut rest = items.to_vec();
        let first = rest.remove(i);
        for mut tail in permutations(&rest) {
            tail.insert(0, first);
            all.push(tail);
        }
    }
    all
}

#[test]
fn exactly_one_worker_is_last_in_every_order() {
    let shards = partition(10, 4);
    let barrier = StepBarrier::new(10);
    assert_eq!(barrier.total_envs(), 10);
    for order in permutations(&[0, 1, 2, 3]) {
        barrier.begin_round();
        let arrivals: Vec<Arrival> = order.iter().map(|&t| barrier.arrive(shards[t].len)).collect();
        let signals: Vec<bool> = arrivals.iter().map(|a| a.last).collect();
        assert_eq!(signals, vec![false, false, false, true]);
        let mut counted = 0;
        for (a, &t) in arrivals.iter().zip(order.iter()) {
            assert_eq!(a.previous, counted);
            counted += shards[t].len;
        }
    }
}

#[test]
fn an_empty_shard_can_make_a_second_signal() {
    let barrier = StepBarrier::new(1);
    barrier.begin_round();
    assert_eq!(barrier.arrive(1), Arrival { previous: 0, last: true });
    assert_eq!(barrier.arrive(0), Arrival { previous: 1, last: true });
    barrier.begin_round();
    assert_eq!(barrier.arrive(0), Arrival { previous: 0, last: false });
    assert_eq!(barrier.arrive(1), Arrival { previous: 0, last: true });
}
