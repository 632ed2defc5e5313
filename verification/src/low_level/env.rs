use vstd::prelude::*;

verus! {

/// The identifier of an entity, stable while the entity lives.
pub type EntityId = u64;

/// The name of an action type.
pub type ActionType = String;

/// The name of an entity type.
pub type EntityType = String;

/// The kind of decision an action type asks for.
#[derive(Debug)]
pub enum ActionSpace {
    Categorical { choices: Vec<String> },
    SelectEntity,
}

/// Mathematical model of an [`ActionSpace`].
pub enum ActionSpaceView {
    Categorical { choices: Seq<Seq<char>> },
    SelectEntity,
}

/// Which entities may act, and on what, for one action type in one observation.
#[derive(Debug)]
pub enum ActionMask {
    DenseCategorical { actors: Vec<EntityId>, mask: Option<Vec<bool>> },
    SelectEntity { actors: Vec<EntityId>, actees: Vec<EntityId> },
}

/// Mathematical model of an [`ActionMask`].
pub enum ActionMaskView {
    DenseCategorical { actors: Seq<EntityId>, mask: Option<Seq<bool>> },
    SelectEntity { actors: Seq<EntityId>, actees: Seq<EntityId> },
}

/// The driver's decision for one action type on one instance.
#[derive(Debug)]
pub enum Action {
    Categorical { actors: Vec<EntityId>, action: Vec<usize> },
    SelectEntity { actors: Vec<EntityId>, actees: Vec<EntityId> },
}

/// Mathematical model of an [`Action`].
pub enum ActionView {
    Categorical { actors: Seq<EntityId>, action: Seq<usize> },
    SelectEntity { actors: Seq<EntityId>, actees: Seq<EntityId> },
}

/// An entity type: the ordered names of its features.
#[derive(Debug)]
pub struct Entity {
    pub features: Vec<String>,
}

/// The entity types an environment can show, in declaration order.
#[derive(Debug)]
pub struct ObsSpace {
    pub entities: Vec<(EntityType, Entity)>,
}

/// Per entity type a count, and all feature rows of all entities end to end.
#[derive(Debug)]
pub struct CompactFeatures<F> {
    pub counts: Vec<usize>,
    pub data: Vec<F>,
}

/// What one agent of one environment instance sees after one step.
#[derive(Debug)]
pub struct Observation<F> {
    pub features: CompactFeatures<F>,
    pub ids: Vec<Option<Vec<EntityId>>>,
    pub actions: Vec<Option<ActionMask>>,
    pub done: bool,
    pub reward: F,
    pub metrics: Vec<(String, F)>,
}

/// Mathematical model of an [`Observation`].
pub struct ObservationView<F> {
    pub counts: Seq<usize>,
    pub data: Seq<F>,
    pub ids: Seq<Option<Seq<EntityId>>>,
    pub actions: Seq<Option<ActionMaskView>>,
    pub done: bool,
    pub reward: F,
    pub metrics: Seq<(Seq<char>, F)>,
}

/// The strings of a vector as character sequences.
pub open spec fn names_view(names: Seq<String>) -> Seq<Seq<char>> {
    Seq::new(names.len(), |i: int| names[i]@)
}

/// The masks of an observation, one per action type, as models.
pub open spec fn masks_view(masks: Seq<Option<ActionMask>>) -> Seq<Option<ActionMaskView>> {
    Seq::new(
        masks.len(),
        |i: int|
            match masks[i] {
                Some(m) => Some(m@),
                None => None,
            },
    )
}

/// The actions for one agent, one per action type, as models.
pub open spec fn actions_view(actions: Seq<Option<Action>>) -> Seq<Option<ActionView>> {
    Seq::new(
        actions.len(),
        |i: int|
            match actions[i] {
                Some(a) => Some(a@),
                None => None,
            },
    )
}

/// Optional id lists, one per entity type, as sequences.
pub open spec fn ids_view(ids: Seq<Option<Vec<EntityId>>>) -> Seq<Option<Seq<EntityId>>> {
    Seq::new(
        ids.len(),
        |i: int|
            match ids[i] {
                Some(v) => Some(v@),
                None => None,
            },
    )
}

/// Named metric values with the names as character sequences.
pub open spec fn metrics_view<F>(metrics: Seq<(String, F)>) -> Seq<(Seq<char>, F)> {
    Seq::new(metrics.len(), |i: int| (metrics[i].0@, metrics[i].1))
}

impl View for ActionSpace {
    type V = ActionSpaceView;

    open spec fn view(&self) -> ActionSpaceView {
        match self {
            ActionSpace::Categorical { choices } => ActionSpaceView::Categorical {
                choices: names_view(choices@),
            },
            ActionSpace::SelectEntity => ActionSpaceView::SelectEntity,
        }
    }
}

impl View for ActionMask {
    type V = ActionMaskView;

    open spec fn view(&self) -> ActionMaskView {
        match self {
            ActionMask::DenseCategorical { actors, mask } => ActionMaskView::DenseCategorical {
                actors: actors@,
                mask: match mask {
                    Some(m) => Some(m@),
                    None => None,
                },
            },
            ActionMask::SelectEntity { actors, actees } => ActionMaskView::SelectEntity {
                actors: actors@,
                actees: actees@,
            },
        }
    }
}

impl View for Action {
    type V = ActionView;

    open spec fn view(&self) -> ActionView {
        match self {
            Action::Categorical { actors, action } => ActionView::Categorical {
                actors: actors@,
                action: action@,
            },
            Action::SelectEntity { actors, actees } => ActionView::SelectEntity {
                actors: actors@,
                actees: actees@,
            },
        }
    }
}

impl View for Entity {
    type V = Seq<Seq<char>>;

    open spec fn view(&self) -> Seq<Seq<char>> {
        names_view(self.features@)
    }
}

impl View for ObsSpace {
    type V = Seq<(Seq<char>, Seq<Seq<char>>)>;

    open spec fn view(&self) -> Seq<(Seq<char>, Seq<Seq<char>>)> {
        Seq::new(self.entities@.len(), |i: int| (self.entities@[i].0@, self.entities@[i].1@))
    }
}

impl<F> View for Observation<F> {
    type V = ObservationView<F>;

    open spec fn view(&self) -> ObservationView<F> {
        ObservationView {
            counts: self.features.counts@,
            data: self.features.data@,
            ids: ids_view(self.ids@),
            actions: masks_view(self.actions@),
            done: self.done,
            reward: self.reward,
            metrics: metrics_view(self.metrics@),
        }
    }
}

/// A copy of a vector of entity ids.
pub fn copy_ids(ids: &Vec<EntityId>) -> (out: Vec<EntityId>)
    ensures
        out@ == ids@,
{
    let mut out: Vec<EntityId> = Vec::new();
    let mut i: usize = 0;
    while i < ids.len()
        invariant
            i <= ids.len(),
            out@ == ids@.take(i as int),
        decreases ids.len() - i,
    {
        out.push(ids[i]);
        assert(ids@.take(i as int + 1) =~= ids@.take(i as int).push(ids@[i as int]));
        i += 1;
    }
    assert(ids@.take(ids.len() as int) =~= ids@);
    out
}

/// A copy of a vector of strings.
pub fn copy_names(names: &Vec<String>) -> (out: Vec<String>)
    ensures
        names_view(out@) == names_view(names@),
{
    let mut out: Vec<String> = Vec::new();
    let mut i: usize = 0;
    while i < names.len()
        invariant
            i <= names.len(),
            out@.len() == i,
            forall|k: int| 0 <= k < i ==> out@[k]@ == names@[k]@,
        decreases names.len() - i,
    {
        out.push(names[i].clone());
        i += 1;
    }
    assert(names_view(out@) =~= names_view(names@));
    out
}

impl Clone for ActionSpace {
    fn clone(&self) -> (out: Self)
        ensures
            out@ == self@,
    {
        match self {
            ActionSpace::Categorical { choices } => ActionSpace::Categorical {
                choices: copy_names(choices),
            },
            ActionSpace::SelectEntity => ActionSpace::SelectEntity,
        }
    }
}

impl Clone for ActionMask {
    fn clone(&self) -> (out: Self)
        ensures
            out@ == self@,
    {
        match self {
            ActionMask::DenseCategorical { actors, mask } => {
                let mask_copy = match mask {
                    Some(m) => {
                        let mut c: Vec<bool> = Vec::new();
                        let mut i: usize = 0;
                        while i < m.len()
                            invariant
                                i <= m.len(),
                                c@ == m@.take(i as int),
                            decreases m.len() - i,
                        {
                            c.push(m[i]);
                            assert(m@.take(i as int + 1) =~= m@.take(i as int).push(m@[i as int]));
                            i += 1;
                        }
                        assert(m@.take(m.len() as int) =~= m@);
                        Some(c)
                    },
                    None => None,
                };
                ActionMask::DenseCategorical { actors: copy_ids(actors), mask: mask_copy }
            },
            ActionMask::SelectEntity { actors, actees } => ActionMask::SelectEntity {
                actors: copy_ids(actors),
                actees: copy_ids(actees),
            },
        }
    }
}

impl Clone for Entity {
    fn clone(&self) -> (out: Self)
        ensures
            out@ == self@,
    {
        Entity { features: copy_names(&self.features) }
    }
}

/// A copy of the masks of one observation.
pub fn copy_masks(masks: &Vec<Option<ActionMask>>) -> (out: Vec<Option<ActionMask>>)
    ensures
        masks_view(out@) == masks_view(masks@),
{
    let mut out: Vec<Option<ActionMask>> = Vec::new();
    let mut i: usize = 0;
    while i < masks.len()
        invariant
            i <= masks.len(),
            out@.len() == i,
            forall|k: int| 0 <= k < i ==> masks_view(out@)[k] == masks_view(masks@)[k],
        decreases masks.len() - i,
    {
        let copy = match &masks[i] {
            Some(m) => Some(m.clone()),
            None => None,
        };
        out.push(copy);
        i += 1;
    }
    assert(masks_view(out@) =~= masks_view(masks@));
    out
}

/// A copy of a vector of machine words.
pub fn copy_words(words: &Vec<usize>) -> (out: Vec<usize>)
    ensures
        out@ == words@,
{
    let mut out: Vec<usize> = Vec::new();
    let mut i: usize = 0;
    while i < words.len()
        invariant
            i <= words.len(),
            out@ == words@.take(i as int),
        decreases words.len() - i,
    {
        out.push(words[i]);
        assert(words@.take(i as int + 1) =~= words@.take(i as int).push(words@[i as int]));
        i += 1;
    }
    assert(words@.take(words.len() as int) =~= words@);
    out
}

impl Clone for Action {
    fn clone(&self) -> (out: Self)
        ensures
            out@ == self@,
    {
        match self {
            Action::Categorical { actors, action } => Action::Categorical {
                actors: copy_ids(actors),
                action: copy_words(action),
            },
            Action::SelectEntity { actors, actees } => Action::SelectEntity {
                actors: copy_ids(actors),
                actees: copy_ids(actees),
            },
        }
    }
}

impl Clone for ObsSpace {
    fn clone(&self) -> (out: Self)
        ensures
            out@ == self@,
    {
        let mut entities: Vec<(EntityType, Entity)> = Vec::new();
        let mut i: usize = 0;
        while i < self.entities.len()
            invariant
                i <= self.entities@.len(),
                entities@.len() == i,
                forall|k: int|
                    0 <= k < i ==> (#[trigger] entities@[k]).0@ == self.entities@[k].0@
                        && entities@[k].1@ == self.entities@[k].1@,
            decreases self.entities.len() - i,
        {
            entities.push((self.entities[i].0.clone(), self.entities[i].1.clone()));
            i += 1;
        }
        let out = ObsSpace { entities };
        assert(out@ =~= self@);
        out
    }
}

impl<F: Copy> Clone for CompactFeatures<F> {
    fn clone(&self) -> (out: Self)
        ensures
            out.counts@ == self.counts@,
            out.data@ == self.data@,
    {
        let mut data: Vec<F> = Vec::new();
        let mut i: usize = 0;
        while i < self.data.len()
            invariant
                i <= self.data@.len(),
                data@ == self.data@.take(i as int),
            decreases self.data.len() - i,
        {
            data.push(self.data[i]);
            assert(self.data@.take(i as int + 1) =~= self.data@.take(i as int).push(
                self.data@[i as int],
            ));
            i += 1;
        }
        assert(self.data@.take(self.data@.len() as int) =~= self.data@);
        CompactFeatures { counts: copy_words(&self.counts), data }
    }
}

impl<F: Copy> Clone for Observation<F> {
    fn clone(&self) -> (out: Self)
        ensures
            out@ == self@,
    {
        let mut ids: Vec<Option<Vec<EntityId>>> = Vec::new();
        let mut i: usize = 0;
        while i < self.ids.len()
            invariant
                i <= self.ids@.len(),
                ids@.len() == i,
                forall|k: int|
                    0 <= k < i ==> match (#[trigger] ids@[k], self.ids@[k]) {
                        (Some(a), Some(b)) => a@ == b@,
                        (None, None) => true,
                        _ => false,
                    },
            decreases self.ids.len() - i,
        {
            let copy = match &self.ids[i] {
                Some(v) => Some(copy_ids(v)),
                None => None,
            };
            ids.push(copy);
            i += 1;
        }
        assert(ids_view(ids@) =~= ids_view(self.ids@));
        let mut metrics: Vec<(String, F)> = Vec::new();
        let mut j: usize = 0;
        while j < self.metrics.len()
            invariant
                j <= self.metrics@.len(),
                metrics@.len() == j,
                forall|k: int|
                    0 <= k < j ==> (#[trigger] metrics@[k]).0@ == self.metrics@[k].0@
                        && metrics@[k].1 == self.metrics@[k].1,
            decreases self.metrics.len() - j,
        {
            metrics.push((self.metrics[j].0.clone(), self.metrics[j].1));
            j += 1;
        }
        assert(metrics_view(metrics@) =~= metrics_view(self.metrics@));
        Observation {
            features: self.features.clone(),
            ids,
            actions: copy_masks(&self.actions),
            done: self.done,
            reward: self.reward,
            metrics,
        }
    }
}

} // verus!
