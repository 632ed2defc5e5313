use vstd::prelude::*;

verus! {

/// The position of `key` in a list of named values, or the length of the
/// list where it is not there.
pub open spec fn position<V>(list: Seq<(Seq<char>, V)>, key: Seq<char>) -> int
    decreases list.len(),
{
    if list.len() == 0 {
        0
    } else if list[0].0 == key {
        0
    } else {
        1 + position(list.drop_first(), key)
    }
}

/// The value that a list of named values holds under `key`: the first of
/// that name.
pub open spec fn lookup<V>(list: Seq<(Seq<char>, V)>, key: Seq<char>) -> Option<V> {
    if position(list, key) < list.len() {
        Some(list[position(list, key)].1)
    } else {
        None
    }
}

/// The list with `value` under `key`: in the place of the first value of that
/// name, or at the end where there is none.
pub open spec fn upsert<V>(list: Seq<(Seq<char>, V)>, key: Seq<char>, value: V) -> Seq<
    (Seq<char>, V),
> {
    if position(list, key) < list.len() {
        list.update(position(list, key), (key, value))
    } else {
        list.push((key, value))
    }
}

/// `position` is the first index that holds the key, and no index before it
/// does.
pub proof fn lemma_position<V>(list: Seq<(Seq<char>, V)>, key: Seq<char>)
    ensures
        0 <= position(list, key) <= list.len(),
        position(list, key) < list.len() ==> list[position(list, key)].0 == key,
        forall|i: int| 0 <= i < position(list, key) ==> (#[trigger] list[i]).0 != key,
    decreases list.len(),
{
    if list.len() > 0 && list[0].0 != key {
        let rest = list.drop_first();
        lemma_position(rest, key);
        assert forall|i: int| 0 <= i < position(list, key) implies (#[trigger] list[i]).0
            != key by {
            if i > 0 {
                assert(list[i] == rest[i - 1]);
            }
        }
    }
}

/// Where the first `n` entries do not hold the key and entry `n` does, or the
/// list ends there, the position of the key is `n`.
pub proof fn lemma_position_is<V>(list: Seq<(Seq<char>, V)>, key: Seq<char>, n: int)
    requires
        0 <= n <= list.len(),
        forall|i: int| 0 <= i < n ==> (#[trigger] list[i]).0 != key,
        n < list.len() ==> list[n].0 == key,
    ensures
        position(list, key) == n,
{
    lemma_position(list, key);
}

/// What is stored under a key is found under it, and nothing else changes.
pub proof fn lemma_upsert<V>(list: Seq<(Seq<char>, V)>, key: Seq<char>, value: V, other: Seq<char>)
    ensures
        lookup(upsert(list, key, value), key) == Some(value),
        other != key ==> lookup(upsert(list, key, value), other) == lookup(list, other),
{
    let p = position(list, key);
    let after = upsert(list, key, value);
    lemma_position(list, key);
    lemma_position(list, other);
    lemma_position_is(after, key, p);
    if other != key {
        let q = position(list, other);
        lemma_position_is(after, other, if q < list.len() {
            q
        } else {
            after.len() as int
        });
    }
}

/// The values of a list of named values, gathered by name: the names in the
/// order in which they first occur, each with all its values in the order in
/// which they occur.
pub open spec fn grouped<V>(pairs: Seq<(Seq<char>, V)>) -> Seq<(Seq<char>, Seq<V>)>
    decreases pairs.len(),
{
    if pairs.len() == 0 {
        Seq::empty()
    } else {
        let front = grouped(pairs.drop_last());
        let key = pairs.last().0;
        let value = pairs.last().1;
        match lookup(front, key) {
            Some(values) => upsert(front, key, values.push(value)),
            None => upsert(front, key, seq![value]),
        }
    }
}

} // verus!
