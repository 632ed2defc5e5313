use crate::agent::featurizable::Featurizable;
use crate::named::{lemma_position, lemma_position_is, lemma_upsert, lookup, position, upsert};
use vstd::prelude::*;

verus! {

/// The entities of one type in an observation: their feature rows end to end.
#[derive(Debug)]
pub struct EntityFeatures<F> {
    pub features: Vec<F>,
    pub num_entities: usize,
    pub num_features: usize,
    pub is_actor: bool,
}

/// Mathematical model of [`EntityFeatures`].
pub struct EntityFeaturesView<F> {
    pub features: Seq<F>,
    pub num_entities: nat,
    pub num_features: nat,
    pub is_actor: bool,
}

impl<F> View for EntityFeatures<F> {
    type V = EntityFeaturesView<F>;

    open spec fn view(&self) -> EntityFeaturesView<F> {
        EntityFeaturesView {
            features: self.features@,
            num_entities: self.num_entities as nat,
            num_features: self.num_features as nat,
            is_actor: self.is_actor,
        }
    }
}

/// The number of actors among the first `upto` entity types of a list: the
/// entities of those types that are marked as actors.
pub open spec fn actors_among<F>(list: Seq<(Seq<char>, EntityFeaturesView<F>)>, upto: int) -> nat
    decreases upto,
{
    if upto <= 0 {
        0
    } else {
        actors_among(list, upto - 1) + if list[upto - 1].1.is_actor {
            list[upto - 1].1.num_entities
        } else {
            0
        }
    }
}

/// Whether `out` is what featurizing the given entities gives: their number,
/// the width that their type declares, and their feature rows end to end.
pub open spec fn is_featurized<E: Featurizable>(
    entities: Seq<E>,
    is_actor: bool,
    out: EntityFeatures<E::Scalar>,
) -> bool {
    &&& out.num_entities == entities.len()
    &&& out.is_actor == is_actor
    &&& call_ensures(E::num_feats, (), out.num_features)
    &&& exists|rows: Seq<Vec<E::Scalar>>|
        {
            &&& rows.len() == entities.len()
            &&& forall|i: int|
                0 <= i < rows.len() ==> call_ensures(
                    E::featurize,
                    (&entities[i],),
                    #[trigger] rows[i],
                )
            &&& out.features@ == rows.map_values(|r: Vec<E::Scalar>| r@).flatten()
        }
}

/// The position of a name depends on the names alone.
proof fn lemma_same_position<V, W>(
    list: Seq<(Seq<char>, V)>,
    names: Seq<(Seq<char>, W)>,
    name: Seq<char>,
)
    requires
        names.len() == list.len(),
        forall|i: int| 0 <= i < list.len() ==> (#[trigger] names[i]).0 == list[i].0,
    ensures
        position(names, name) == position(list, name),
{
    lemma_position(list, name);
    assert forall|i: int| 0 <= i < position(list, name) implies (#[trigger] names[i]).0
        != name by {
        assert(list[i].0 != name);
    }
    lemma_position_is(names, name, position(list, name));
}

/// The names of a list of named values.
pub open spec fn keys<V>(list: Seq<(String, V)>) -> Seq<(Seq<char>, ())> {
    Seq::new(list.len(), |i: int| (list[i].0@, ()))
}

/// Whether no name occurs twice in a list of named values.
pub open spec fn distinct_keys<V>(list: Seq<(String, V)>) -> bool {
    forall|i: int, j: int|
        0 <= i < j < list.len() ==> (#[trigger] list[i]).0@ != (#[trigger] list[j]).0@
}

/// Puts a value under a name: in the place of the first value of that name,
/// or at the end where there is none.
fn put<V>(list: Vec<(String, V)>, name: &str, value: V) -> (out: Vec<(String, V)>)
    ensures
        out@.len() == if position(keys(list@), name@) < list@.len() {
            list@.len()
        } else {
            list@.len() + 1
        },
        out@[position(keys(list@), name@)].0@ == name@,
        out@[position(keys(list@), name@)].1 == value,
        forall|k: int|
            0 <= k < list@.len() && k != position(keys(list@), name@) ==> #[trigger] out@[k]
                == list@[k],
        forall|k: int| 0 <= k < list@.len() ==> (#[trigger] out@[k]).0@ == list@[k].0@,
        distinct_keys(list@) ==> distinct_keys(out@),
{
    let mut out = list;
    let key = name.to_owned();
    let mut i: usize = 0;
    while i < out.len()
        invariant
            out == list,
            key@ == name@,
            i <= out@.len(),
            forall|k: int| 0 <= k < i ==> (#[trigger] keys(list@)[k]).0 != name@,
        decreases out.len() - i,
    {
        if out[i].0 == key {
            proof {
                assert(keys(list@)[i as int].0 == name@);
                lemma_position_is(keys(list@), name@, i as int);
            }
            out[i].1 = value;
            return out;
        }
        i += 1;
    }
    proof {
        lemma_position_is(keys(list@), name@, i as int);
        assert forall|k: int| 0 <= k < list@.len() implies (#[trigger] list@[k]).0@ != name@ by {
            assert(keys(list@)[k].0 != name@);
        }
    }
    out.push((key, value));
    out
}

/// What an agent sees at one step: entities by type, a score, and named
/// metrics. There is at most one entry per entity type and per metric name;
/// a later one of the same name takes the place of the earlier.
#[derive(Debug)]
pub struct Obs<F> {
    entities: Vec<(String, EntityFeatures<F>)>,
    done: bool,
    score: F,
    metrics: Vec<(String, F)>,
}

impl<F> Obs<F> {
    /// Holds of every observation that exists at run time: there is at most
    /// one entry per entity type and per metric name.
    #[verifier::type_invariant]
    pub closed spec fn well_formed(&self) -> bool {
        distinct_keys(self.entities@) && distinct_keys(self.metrics@)
    }

    /// There is at most one entry per entity type and per metric name.
    pub proof fn lemma_names_distinct(&self)
        requires
            self.well_formed(),
        ensures
            forall|i: int, j: int|
                0 <= i < j < self.entity_list().len() ==> (#[trigger] self.entity_list()[i]).0 != (
                #[trigger] self.entity_list()[j]).0,
            forall|i: int, j: int|
                0 <= i < j < self.metric_list().len() ==> (#[trigger] self.metric_list()[i]).0 != (
                #[trigger] self.metric_list()[j]).0,
    {
        assert forall|i: int, j: int| 0 <= i < j < self.entity_list().len() implies (
        #[trigger] self.entity_list()[i]).0 != (#[trigger] self.entity_list()[j]).0 by {
            assert(self.entities@[i].0@ != self.entities@[j].0@);
        }
        assert forall|i: int, j: int| 0 <= i < j < self.metric_list().len() implies (
        #[trigger] self.metric_list()[i]).0 != (#[trigger] self.metric_list()[j]).0 by {
            assert(self.metrics@[i].0@ != self.metrics@[j].0@);
        }
    }

    /// The entity types of the observation with their entities, in the order
    /// in which the types were first added.
    pub closed spec fn entity_list(&self) -> Seq<(Seq<char>, EntityFeaturesView<F>)> {
        Seq::new(self.entities@.len(), |i: int| (self.entities@[i].0@, self.entities@[i].1@))
    }

    /// The metrics of the observation, in the order in which the names were
    /// first added.
    pub closed spec fn metric_list(&self) -> Seq<(Seq<char>, F)> {
        Seq::new(self.metrics@.len(), |i: int| (self.metrics@[i].0@, self.metrics@[i].1))
    }

    /// The score.
    pub closed spec fn spec_score(&self) -> F {
        self.score
    }

    /// Whether the observation ends an episode.
    pub closed spec fn spec_done(&self) -> bool {
        self.done
    }

    /// The entities of the type of the given name.
    pub open spec fn entity(&self, name: Seq<char>) -> Option<EntityFeaturesView<F>> {
        lookup(self.entity_list(), name)
    }

    /// The metric of the given name.
    pub open spec fn metric_value(&self, name: Seq<char>) -> Option<F> {
        lookup(self.metric_list(), name)
    }
}

impl<F: Copy> Obs<F> {
    /// An observation with the given score and nothing else.
    pub fn new(score: F) -> (obs: Self)
        ensures
            obs.spec_score() == score,
            !obs.spec_done(),
            obs.entity_list() == Seq::<(Seq<char>, EntityFeaturesView<F>)>::empty(),
            obs.metric_list() == Seq::<(Seq<char>, F)>::empty(),
    {
        let obs = Obs { entities: Vec::new(), done: false, score, metrics: Vec::new() };
        assert(obs.entity_list() =~= Seq::<(Seq<char>, EntityFeaturesView<F>)>::empty());
        assert(obs.metric_list() =~= Seq::<(Seq<char>, F)>::empty());
        obs
    }

    /// Puts the entities of one type into the observation, in the place of
    /// those of the same type if there are any. Afterwards they are what the
    /// observation holds of that type, and what it holds of any other type
    /// is what it held.
    pub fn with_entity(self, name: &str, entities: EntityFeatures<F>) -> (obs: Self)
        ensures
            obs.entity_list() == upsert(self.entity_list(), name@, entities@),
            obs.entity(name@) == Some(entities@),
            forall|other: Seq<char>|
                other != name@ ==> #[trigger] obs.entity(other) == self.entity(other),
            obs.metric_list() == self.metric_list(),
            obs.spec_score() == self.spec_score(),
            obs.spec_done() == self.spec_done(),
    {
        proof {
            use_type_invariant(&self);
        }
        let ghost before = self;
        let Obs { entities: list, done, score, metrics } = self;
        let ghost old_list = list@;
        let list = put(list, name, entities);
        let obs = Obs { entities: list, done, score, metrics };
        proof {
            assert(keys(old_list) =~= Seq::new(
                before.entity_list().len(),
                |i: int| (before.entity_list()[i].0, ()),
            ));
            lemma_same_position(before.entity_list(), keys(old_list), name@);
            lemma_position(before.entity_list(), name@);
            assert(obs.entity_list() =~= upsert(before.entity_list(), name@, entities@));
            assert(obs.metric_list() =~= before.metric_list());
            lemma_upsert(before.entity_list(), name@, entities@, name@);
            assert forall|other: Seq<char>| other != name@ implies #[trigger] obs.entity(other)
                == before.entity(other) by {
                lemma_upsert(before.entity_list(), name@, entities@, other);
            }
        }
        obs
    }

    /// Adds a numerical metric to the observation, in the place of the one of
    /// the same name if there is one. Afterwards it is the metric of that
    /// name, and the metric of any other name is what it was.
    pub fn metric(self, name: &str, value: F) -> (obs: Self)
        ensures
            obs.metric_list() == upsert(self.metric_list(), name@, value),
            obs.metric_value(name@) == Some(value),
            forall|other: Seq<char>|
                other != name@ ==> #[trigger] obs.metric_value(other) == self.metric_value(other),
            obs.entity_list() == self.entity_list(),
            obs.spec_score() == self.spec_score(),
            obs.spec_done() == self.spec_done(),
    {
        proof {
            use_type_invariant(&self);
        }
        let ghost before = self;
        let Obs { entities, done, score, metrics: list } = self;
        let ghost old_list = list@;
        let list = put(list, name, value);
        let obs = Obs { entities, done, score, metrics: list };
        proof {
            assert(keys(old_list) =~= Seq::new(
                before.metric_list().len(),
                |i: int| (before.metric_list()[i].0, ()),
            ));
            lemma_same_position(before.metric_list(), keys(old_list), name@);
            lemma_position(before.metric_list(), name@);
            assert(obs.metric_list() =~= upsert(before.metric_list(), name@, value));
            assert(obs.entity_list() =~= before.entity_list());
            lemma_upsert(before.metric_list(), name@, value, name@);
            assert forall|other: Seq<char>| other != name@ implies #[trigger] obs.metric_value(
                other,
            ) == before.metric_value(other) by {
                lemma_upsert(before.metric_list(), name@, value, other);
            }
        }
        obs
    }

    /// The entities of the type of the given name.
    pub fn get(&self, name: &str) -> (found: Option<&EntityFeatures<F>>)
        ensures
            match found {
                Some(e) => self.entity(name@) == Some(e@),
                None => self.entity(name@) is None,
            },
    {
        let key = name.to_owned();
        let mut i: usize = 0;
        while i < self.entities.len()
            invariant
                key@ == name@,
                i <= self.entities@.len(),
                forall|k: int| 0 <= k < i ==> (#[trigger] self.entity_list()[k]).0 != name@,
            decreases self.entities.len() - i,
        {
            if self.entities[i].0 == key {
                proof {
                    assert(self.entity_list()[i as int].0 == name@);
                    lemma_position_is(self.entity_list(), name@, i as int);
                }
                return Some(&self.entities[i].1);
            }
            i += 1;
        }
        proof {
            lemma_position_is(self.entity_list(), name@, i as int);
        }
        None
    }

    /// The entity types of the observation with their entities, in the order
    /// in which the types were first added.
    pub fn entries(&self) -> (entries: &Vec<(String, EntityFeatures<F>)>)
        ensures
            entries@.len() == self.entity_list().len(),
            forall|i: int|
                0 <= i < entries@.len() ==> (#[trigger] entries@[i]).0@ == self.entity_list()[i].0
                    && entries@[i].1@ == self.entity_list()[i].1,
    {
        &self.entities
    }

    /// The metrics with their names.
    pub fn metrics(&self) -> (metrics: &Vec<(String, F)>)
        ensures
            crate::low_level::env::metrics_view(metrics@) == self.metric_list(),
    {
        assert(crate::low_level::env::metrics_view(self.metrics@) =~= self.metric_list());
        &self.metrics
    }

    /// Returns the score.
    pub fn score(&self) -> (score: F)
        ensures
            score == self.spec_score(),
    {
        self.score
    }

    /// Whether the observation ends an episode.
    pub fn done(&self) -> (done: bool)
        ensures
            done == self.spec_done(),
    {
        self.done
    }

    /// The number of actors in the observation, or the largest machine word
    /// where there are more.
    pub fn num_actors(&self) -> (actors: usize)
        ensures
            actors == if actors_among(self.entity_list(), self.entity_list().len() as int)
                > usize::MAX {
                usize::MAX as nat
            } else {
                actors_among(self.entity_list(), self.entity_list().len() as int)
            },
    {
        let mut actor_count: usize = 0;
        let mut i: usize = 0;
        while i < self.entities.len()
            invariant
                i <= self.entities@.len(),
                actor_count == if actors_among(self.entity_list(), i as int) > usize::MAX {
                    usize::MAX as nat
                } else {
                    actors_among(self.entity_list(), i as int)
                },
            decreases self.entities.len() - i,
        {
            if self.entities[i].1.is_actor {
                actor_count = actor_count.saturating_add(self.entities[i].1.num_entities);
            }
            assert(self.entity_list()[i as int].1 == self.entities@[i as int].1@);
            i += 1;
        }
        actor_count
    }

    /// The feature rows of the given entities, end to end, as the entities of
    /// their type.
    pub fn featurized<E: Featurizable<Scalar = F>>(entities: &Vec<E>, is_actor: bool) -> (out:
        EntityFeatures<F>)
        ensures
            is_featurized(entities@, is_actor, out),
    {
        let mut feats: Vec<F> = Vec::new();
        let ghost mut rows: Seq<Vec<F>> = Seq::empty();
        let mut i: usize = 0;
        assert(rows.map_values(|r: Vec<F>| r@) =~= Seq::<Seq<F>>::empty());
        while i < entities.len()
            invariant
                i <= entities@.len(),
                rows.len() == i,
                forall|k: int|
                    0 <= k < i ==> call_ensures(E::featurize, (&entities@[k],), #[trigger] rows[k]),
                feats@ == rows.map_values(|r: Vec<F>| r@).flatten(),
            decreases entities.len() - i,
        {
            let mut row = entities[i].featurize();
            proof {
                let before = rows.map_values(|r: Vec<F>| r@);
                before.lemma_flatten_push(row@);
                assert(rows.push(row).map_values(|r: Vec<F>| r@) =~= before.push(row@));
                rows = rows.push(row);
            }
            feats.append(&mut row);
            i += 1;
        }
        EntityFeatures {
            features: feats,
            num_entities: entities.len(),
            num_features: E::num_feats(),
            is_actor,
        }
    }

    /// Adds a set of entities to the observation, under the name of their
    /// type.
    pub fn entities<E: Featurizable<Scalar = F>>(self, entities: Vec<E>) -> (obs: Self)
        ensures
            obs.metric_list() == self.metric_list(),
            obs.spec_score() == self.spec_score(),
            obs.spec_done() == self.spec_done(),
            exists|name: &'static str, e: EntityFeatures<F>|
                {
                    &&& call_ensures(E::name, (), name)
                    &&& is_featurized(entities@, false, e)
                    &&& obs.entity_list() == upsert(self.entity_list(), name@, e@)
                },
    {
        let e = Self::featurized(&entities, false);
        let name = E::name();
        self.with_entity(name, e)
    }

    /// Adds a set of actor entities to the observation, under the name of
    /// their type.
    pub fn actors<E: Featurizable<Scalar = F>>(self, entities: Vec<E>) -> (obs: Self)
        ensures
            obs.metric_list() == self.metric_list(),
            obs.spec_score() == self.spec_score(),
            obs.spec_done() == self.spec_done(),
            exists|name: &'static str, e: EntityFeatures<F>|
                {
                    &&& call_ensures(E::name, (), name)
                    &&& is_featurized(entities@, true, e)
                    &&& obs.entity_list() == upsert(self.entity_list(), name@, e@)
                },
    {
        let e = Self::featurized(&entities, true);
        let name = E::name();
        self.with_entity(name, e)
    }
}

} // verus!
