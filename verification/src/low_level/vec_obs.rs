use crate::low_level::env::{
    ActionMask, ActionMaskView, ActionSpace, ActionSpaceView, ActionType, EntityId, ObsSpace,
    Observation,
};
use crate::low_level::ragged_buffer::RaggedBuffer;
use crate::named::{grouped, lemma_position, lemma_position_is, position, upsert};
use vstd::prelude::*;
use vstd::slice::slice_subrange;

verus! {

/// Why the observations of a round could not be packed into one batch.
#[derive(Debug, Clone, Copy, PartialEq, Eq, Structural)]
pub enum MergeError {
    /// An entity type of the observation space has no features.
    ZeroWidthEntity,
    /// An observation does not hold one count per entity type, or its data is
    /// not exactly the counted rows.
    MalformedObservation,
    /// A categorical action type has no choices.
    EmptyChoices,
    /// An observation has no entry for an action type.
    MissingMask,
    /// An observation's mask is of another kind than the action type.
    MaskKindMismatch,
    /// A dense mask does not hold whole rows of one flag per choice.
    MalformedMask,
}

/// The width of each entity type of an observation space: its number of
/// features.
pub open spec fn spec_widths(space: Seq<(Seq<char>, Seq<Seq<char>>)>) -> Seq<nat> {
    Seq::new(space.len(), |i: int| space[i].1.len())
}

/// The widths of the entity types of an observation space.
pub fn num_feats(obs_space: &ObsSpace) -> (widths: Vec<usize>)
    ensures
        widths@.len() == obs_space@.len(),
        forall|i: int| 0 <= i < widths@.len() ==> widths@[i] == spec_widths(obs_space@)[i],
{
    let mut widths: Vec<usize> = Vec::new();
    let mut i: usize = 0;
    while i < obs_space.entities.len()
        invariant
            i <= obs_space.entities@.len(),
            widths@.len() == i,
            forall|k: int| 0 <= k < i ==> widths@[k] == spec_widths(obs_space@)[k],
        decreases obs_space.entities.len() - i,
    {
        widths.push(obs_space.entities[i].1.features.len());
        i += 1;
    }
    widths
}

/// Where the rows of entity type `i` start in the data of an observation
/// with the given counts: after the rows of all entity types before it.
pub open spec fn feature_offset(counts: Seq<usize>, widths: Seq<usize>, i: int) -> int
    decreases i,
{
    if i <= 0 {
        0
    } else {
        feature_offset(counts, widths, i - 1) + counts[i - 1] * widths[i - 1]
    }
}

/// Whether an observation's features are those of a space with the given
/// widths: one count per entity type, and data that is exactly the counted
/// rows.
pub open spec fn features_fit(counts: Seq<usize>, data_len: nat, widths: Seq<usize>) -> bool {
    counts.len() == widths.len() && feature_offset(counts, widths, widths.len() as int) == data_len
}

/// The offsets never decrease.
pub proof fn lemma_feature_offset_monotone(
    counts: Seq<usize>,
    widths: Seq<usize>,
    i: int,
    j: int,
)
    requires
        0 <= i <= j,
    ensures
        0 <= feature_offset(counts, widths, i) <= feature_offset(counts, widths, j),
    decreases j,
{
    if i < j {
        lemma_feature_offset_monotone(counts, widths, i, j - 1);
        assert(counts[j - 1] * widths[j - 1] >= 0) by (nonlinear_arith);
    } else if j > 0 {
        lemma_feature_offset_monotone(counts, widths, i - 1, j - 1);
        assert(counts[j - 1] * widths[j - 1] >= 0) by (nonlinear_arith);
    }
}

/// The start of each entity type's rows in an observation's data, and after
/// the last the end of the data: `widths.len() + 1` offsets. Refused where the
/// features are not those of the space.
pub fn feature_offsets(counts: &Vec<usize>, data_len: usize, widths: &Vec<usize>) -> (offsets:
    Result<Vec<usize>, MergeError>)
    ensures
        match offsets {
            Ok(o) => {
                &&& features_fit(counts@, data_len as nat, widths@)
                &&& o@.len() == widths@.len() + 1
                &&& forall|i: int|
                    0 <= i <= widths@.len() ==> #[trigger] o@[i] == feature_offset(
                        counts@,
                        widths@,
                        i,
                    )
            },
            Err(e) => e == MergeError::MalformedObservation && !features_fit(
                counts@,
                data_len as nat,
                widths@,
            ),
        },
{
    if counts.len() != widths.len() {
        return Err(MergeError::MalformedObservation);
    }
    let n = widths.len();
    let mut offsets: Vec<usize> = Vec::new();
    offsets.push(0);
    let mut end: usize = 0;
    let mut i: usize = 0;
    while i < n
        invariant
            i <= n,
            n == widths@.len(),
            n == counts@.len(),
            end == feature_offset(counts@, widths@, i as int),
            end <= data_len,
            offsets@.len() == i + 1,
            forall|k: int|
                0 <= k <= i ==> #[trigger] offsets@[k] == feature_offset(counts@, widths@, k),
        decreases n - i,
    {
        proof {
            lemma_feature_offset_monotone(counts@, widths@, i as int + 1, n as int);
        }
        let size = match counts[i].checked_mul(widths[i]) {
            Some(s) => s,
            None => {
                return Err(MergeError::MalformedObservation);
            },
        };
        if size > data_len - end {
            return Err(MergeError::MalformedObservation);
        }
        end = end + size;
        offsets.push(end);
        i += 1;
    }
    if end != data_len {
        return Err(MergeError::MalformedObservation);
    }
    Ok(offsets)
}

/// The rows of entity type `i` in an observation: its part of the data.
pub open spec fn entity_rows<F>(o: Observation<F>, widths: Seq<usize>, i: int) -> Seq<F> {
    o.features.data@.subrange(
        feature_offset(o.features.counts@, widths, i),
        feature_offset(o.features.counts@, widths, i + 1),
    )
}

/// Whether every observation's features are those of a space with the given
/// widths.
pub open spec fn all_features_fit<F>(obs: Seq<Box<Observation<F>>>, widths: Seq<usize>) -> bool {
    forall|k: int|
        0 <= k < obs.len() ==> features_fit(
            (#[trigger] obs[k]).features.counts@,
            obs[k].features.data@.len(),
            widths,
        )
}

/// Packing and then slicing gives each instance its rows back: where a
/// buffer holds, row by row, the rows of entity type `e` of the observations
/// of a round, the part of its flat array that its range `i` cuts out is the
/// part of observation `i`'s data that starts after the rows of the entity
/// types before `e` and holds `counts[e]` rows of the type's width.
pub proof fn lemma_packed_rows_come_back<F>(
    buffer: RaggedBuffer<F>,
    obs: Seq<Box<Observation<F>>>,
    widths: Seq<usize>,
    e: int,
    i: int,
)
    requires
        0 <= e < widths.len(),
        0 <= i < obs.len(),
        buffer.width() == widths[e],
        buffer.rows() == Seq::new(obs.len(), |k: int| entity_rows(*obs[k], widths, e)),
    ensures
        buffer.ranges().len() == obs.len(),
        buffer.flat().subrange(
            buffer.ranges()[i].0 * widths[e],
            buffer.ranges()[i].1 * widths[e],
        ) == obs[i].features.data@.subrange(
            feature_offset(obs[i].features.counts@, widths, e),
            feature_offset(obs[i].features.counts@, widths, e) + obs[i].features.counts@[e]
                * widths[e],
        ),
{
    assert(buffer.rows().len() == obs.len());
    assert(buffer.rows()[i] == entity_rows(*obs[i], widths, e));
    assert(feature_offset(obs[i].features.counts@, widths, e + 1) == feature_offset(
        obs[i].features.counts@,
        widths,
        e,
    ) + obs[i].features.counts@[e] * widths[e]);
}

/// Whether `table` holds the offsets of the entity types in observation `o`.
pub open spec fn is_offset_table<F>(o: Observation<F>, widths: Seq<usize>, table: Seq<usize>) -> bool {
    &&& features_fit(o.features.counts@, o.features.data@.len(), widths)
    &&& table.len() == widths.len() + 1
    &&& forall|i: int|
        0 <= i <= widths.len() ==> #[trigger] table[i] == feature_offset(
            o.features.counts@,
            widths,
            i,
        )
}

/// Packs the features of a round: one buffer per entity type, in the order of
/// the observation space, with one row per observation, in the order given.
/// Row `k` of buffer `i` holds the rows of entity type `i` in observation `k`.
#[verifier::loop_isolation(false)]
pub fn pack_features<F: Copy>(obs_space: &ObsSpace, obs: &[Box<Observation<F>>]) -> (packed: Result<
    Vec<(String, RaggedBuffer<F>)>,
    MergeError,
>)
    ensures
        match packed {
            Ok(p) => {
                &&& all_features_fit(obs@, num_feats_of(obs_space))
                &&& forall|i: int| 0 <= i < obs_space@.len() ==> spec_widths(obs_space@)[i] > 0
                &&& p@.len() == obs_space@.len()
                &&& forall|i: int|
                    0 <= i < p@.len() ==> {
                        &&& (#[trigger] p@[i]).0@ == obs_space@[i].0
                        &&& p@[i].1.width() == spec_widths(obs_space@)[i]
                        &&& p@[i].1.rows() == Seq::new(
                            obs@.len(),
                            |k: int| entity_rows(*obs@[k], num_feats_of(obs_space), i),
                        )
                    }
            },
            Err(MergeError::ZeroWidthEntity) => exists|i: int|
                0 <= i < obs_space@.len() && spec_widths(obs_space@)[i] == 0,
            Err(MergeError::MalformedObservation) => {
                &&& forall|i: int| 0 <= i < obs_space@.len() ==> spec_widths(obs_space@)[i] > 0
                &&& !all_features_fit(obs@, num_feats_of(obs_space))
            },
            Err(_) => false,
        },
{
    let widths = num_feats(obs_space);
    assert(widths@ =~= num_feats_of(obs_space));
    let n = widths.len();
    let mut i: usize = 0;
    while i < n
        invariant
            i <= n,
            forall|k: int| 0 <= k < i ==> widths@[k] > 0,
        decreases n - i,
    {
        if widths[i] == 0 {
            assert(spec_widths(obs_space@)[i as int] == 0);
            return Err(MergeError::ZeroWidthEntity);
        }
        i += 1;
    }
    assert forall|i: int| 0 <= i < obs_space@.len() implies spec_widths(obs_space@)[i] > 0 by {
        assert(widths@[i] > 0);
    }
    let mut offsets: Vec<Vec<usize>> = Vec::new();
    let mut k: usize = 0;
    while k < obs.len()
        invariant
            k <= obs@.len(),
            offsets@.len() == k,
            forall|j: int|
                0 <= j < k ==> is_offset_table(*obs@[j], widths@, (#[trigger] offsets@[j])@),
        decreases obs.len() - k,
    {
        match feature_offsets(&obs[k].features.counts, obs[k].features.data.len(), &widths) {
            Ok(o) => {
                offsets.push(o);
            },
            Err(e) => {
                assert(!features_fit(
                    obs@[k as int].features.counts@,
                    obs@[k as int].features.data@.len(),
                    widths@,
                ));
                return Err(e);
            },
        }
        k += 1;
    }
    assert forall|j: int| 0 <= j < obs@.len() implies features_fit(
        (#[trigger] obs@[j]).features.counts@,
        obs@[j].features.data@.len(),
        widths@,
    ) by {
        assert(is_offset_table(*obs@[j], widths@, offsets@[j]@));
    }
    let mut packed: Vec<(String, RaggedBuffer<F>)> = Vec::new();
    let mut i: usize = 0;
    while i < n
        invariant
            i <= n,
            packed@.len() == i,
            forall|e: int|
                0 <= e < i ==> {
                    &&& (#[trigger] packed@[e]).0@ == obs_space@[e].0
                    &&& packed@[e].1.width() == widths@[e]
                    &&& packed@[e].1.rows() == Seq::new(
                        obs@.len(),
                        |k: int| entity_rows(*obs@[k], widths@, e),
                    )
                },
        decreases n - i,
    {
        let mut buffer: RaggedBuffer<F> = RaggedBuffer::new(widths[i]);
        let mut k: usize = 0;
        assert(buffer.rows() =~= Seq::new(
            0nat,
            |j: int| entity_rows(*obs@[j], widths@, i as int),
        ));
        while k < obs.len()
            invariant
                k <= obs@.len(),
                buffer.width() == widths@[i as int],
                buffer.rows() == Seq::new(
                    k as nat,
                    |j: int| entity_rows(*obs@[j], widths@, i as int),
                ),
            decreases obs.len() - k,
        {
            proof {
                let o = obs@[k as int];
                assert(is_offset_table(*o, widths@, offsets@[k as int]@));
                assert(offsets@[k as int]@[i as int] == feature_offset(
                    o.features.counts@,
                    widths@,
                    i as int,
                ));
                assert(offsets@[k as int]@[i as int + 1] == feature_offset(
                    o.features.counts@,
                    widths@,
                    i as int + 1,
                ));
                assert(offsets@[k as int]@[n as int] == feature_offset(
                    o.features.counts@,
                    widths@,
                    n as int,
                ));
                lemma_feature_offset_monotone(o.features.counts@, widths@, i as int, i as int + 1);
                lemma_feature_offset_monotone(o.features.counts@, widths@, i as int + 1, n as int);
                vstd::arithmetic::div_mod::lemma_mod_multiples_basic(
                    o.features.counts@[i as int] as int,
                    widths@[i as int] as int,
                );
            }
            let start = offsets[k][i];
            let end = offsets[k][i + 1];
            let row = slice_subrange(obs[k].features.data.as_slice(), start, end);
            buffer.push(row);
            assert(buffer.rows() =~= Seq::new(
                (k + 1) as nat,
                |j: int| entity_rows(*obs@[j], widths@, i as int),
            ));
            k += 1;
        }
        packed.push((obs_space.entities[i].0.clone(), buffer));
        i += 1;
    }
    Ok(packed)
}

/// The widths of the entity types of an observation space, as machine words.
pub open spec fn num_feats_of(space: &ObsSpace) -> Seq<usize> {
    Seq::new(space.entities@.len(), |i: int| space.entities@[i].1.features@.len() as usize)
}

/// An entity id as the raw integer of a batch: the same bits read as a
/// signed number, so the id itself up to the largest signed number, and the
/// id less 2 to the power of 64 above it.
pub open spec fn raw_id(id: EntityId) -> int {
    if id <= i64::MAX {
        id as int
    } else {
        id - 0x1_0000_0000_0000_0000
    }
}

/// Entity ids as the raw integers of a batch.
pub open spec fn ids_as_raw(ids: Seq<EntityId>) -> Seq<i64> {
    Seq::new(ids.len(), |j: int| raw_id(ids[j]) as i64)
}

/// An entity id as the raw integer of a batch.
pub fn id_to_raw(id: EntityId) -> (raw: i64)
    ensures
        raw == raw_id(id),
{
    if id <= 0x7fff_ffff_ffff_ffff {
        id as i64
    } else {
        let above: u64 = id - 0x8000_0000_0000_0000;
        i64::MIN + (above as i64)
    }
}

/// Entity ids as the raw integers of a batch.
pub fn ids_to_raw(ids: &Vec<EntityId>) -> (raw: Vec<i64>)
    ensures
        raw@ == ids_as_raw(ids@),
{
    let mut raw: Vec<i64> = Vec::new();
    let mut j: usize = 0;
    while j < ids.len()
        invariant
            j <= ids@.len(),
            raw@.len() == j,
            forall|k: int| 0 <= k < j ==> raw@[k] == raw_id(ids@[k]),
        decreases ids.len() - j,
    {
        raw.push(id_to_raw(ids[j]));
        j += 1;
    }
    assert(raw@ =~= ids_as_raw(ids@));
    raw
}

/// What is wrong, if anything, with the entry that an observation with the
/// given masks has for action type `kind` of the given space.
pub open spec fn mask_fault(
    space: ActionSpaceView,
    masks: Seq<Option<ActionMaskView>>,
    kind: int,
) -> Option<MergeError> {
    if kind >= masks.len() {
        Some(MergeError::MissingMask)
    } else {
        match (space, masks[kind]) {
            (_, None) => None,
            (
                ActionSpaceView::Categorical { choices },
                Some(ActionMaskView::DenseCategorical { actors, mask: None }),
            ) => if actors.len() * choices.len() > usize::MAX {
                Some(MergeError::MalformedMask)
            } else {
                None
            },
            (
                ActionSpaceView::Categorical { choices },
                Some(ActionMaskView::DenseCategorical { actors, mask: Some(m) }),
            ) => if choices.len() == 0 || m.len() % choices.len() != 0 {
                Some(MergeError::MalformedMask)
            } else {
                None
            },
            (ActionSpaceView::SelectEntity, Some(ActionMaskView::SelectEntity { .. })) => None,
            _ => Some(MergeError::MaskKindMismatch),
        }
    }
}

/// The actors of a mask as a row of raw integers; none where there is no mask.
pub open spec fn actor_row(mask: Option<ActionMaskView>) -> Seq<i64> {
    match mask {
        None => Seq::empty(),
        Some(ActionMaskView::DenseCategorical { actors, .. }) => ids_as_raw(actors),
        Some(ActionMaskView::SelectEntity { actors, .. }) => ids_as_raw(actors),
    }
}

/// The actees of a mask as a row of raw integers; none where there are none.
pub open spec fn actee_row(mask: Option<ActionMaskView>) -> Seq<i64> {
    match mask {
        Some(ActionMaskView::SelectEntity { actees, .. }) => ids_as_raw(actees),
        _ => Seq::empty(),
    }
}

/// The flags of a dense mask over `choices` choices: those given, or `true`
/// for every choice of every actor where none are given.
pub open spec fn flag_row(mask: Option<ActionMaskView>, choices: nat) -> Seq<bool> {
    match mask {
        Some(ActionMaskView::DenseCategorical { actors, mask: Some(m) }) => m,
        Some(ActionMaskView::DenseCategorical { actors, mask: None }) => Seq::new(
            actors.len() * choices,
            |j: int| true,
        ),
        _ => Seq::empty(),
    }
}

/// The entry of observation `o` for action type `kind`, where it has one.
pub open spec fn mask_at<F>(o: Observation<F>, kind: int) -> Option<ActionMaskView> {
    crate::low_level::env::masks_view(o.actions@)[kind]
}

/// The first fault among the entries that the first `upto` observations have
/// for action type `kind`.
pub open spec fn first_obs_fault<F>(
    space: ActionSpaceView,
    obs: Seq<Box<Observation<F>>>,
    kind: int,
    upto: int,
) -> Option<MergeError>
    decreases upto,
{
    if upto <= 0 {
        None
    } else {
        match first_obs_fault(space, obs, kind, upto - 1) {
            Some(e) => Some(e),
            None => mask_fault(space, crate::low_level::env::masks_view(obs[upto - 1].actions@), kind),
        }
    }
}

/// A fault among the first observations stays the result however many more
/// are looked at.
pub proof fn lemma_obs_fault_stays<F>(
    space: ActionSpaceView,
    obs: Seq<Box<Observation<F>>>,
    kind: int,
    from: int,
    upto: int,
)
    requires
        0 <= from <= upto,
        first_obs_fault(space, obs, kind, from) is Some,
    ensures
        first_obs_fault(space, obs, kind, upto) == first_obs_fault(space, obs, kind, from),
    decreases upto - from,
{
    if from < upto {
        lemma_obs_fault_stays(space, obs, kind, from, upto - 1);
    }
}

/// What is wrong, if anything, with action type `kind` in a round: a
/// categorical space without choices, or else the first fault among the
/// observations' entries.
pub open spec fn type_fault<F>(space: ActionSpaceView, obs: Seq<Box<Observation<F>>>, kind: int) -> Option<
    MergeError,
> {
    if space matches ActionSpaceView::Categorical { choices } && choices.len() == 0 {
        Some(MergeError::EmptyChoices)
    } else {
        first_obs_fault(space, obs, kind, obs.len() as int)
    }
}

/// The masks of one action type over a round: the actors of each observation,
/// then for a select-entity type the actees, and for a categorical type the
/// flags.
pub type MaskBatch = (RaggedBuffer<i64>, Option<RaggedBuffer<i64>>, Option<RaggedBuffer<bool>>);

/// Whether `batch` holds the masks that the observations have for action type
/// `kind` of the given space, one row per observation.
pub open spec fn is_mask_batch<F>(
    batch: MaskBatch,
    space: ActionSpaceView,
    obs: Seq<Box<Observation<F>>>,
    kind: int,
) -> bool {
    &&& batch.0.width() == 1
    &&& batch.0.rows() == Seq::new(obs.len(), |k: int| actor_row(mask_at(*obs[k], kind)))
    &&& match space {
        ActionSpaceView::Categorical { choices } => {
            &&& batch.1 is None
            &&& batch.2 matches Some(flags)
            &&& flags.width() == choices.len()
            &&& flags.rows() == Seq::new(
                obs.len(),
                |k: int| flag_row(mask_at(*obs[k], kind), choices.len()),
            )
        },
        ActionSpaceView::SelectEntity => {
            &&& batch.2 is None
            &&& batch.1 matches Some(actees)
            &&& actees.width() == 1
            &&& actees.rows() == Seq::new(obs.len(), |k: int| actee_row(mask_at(*obs[k], kind)))
        },
    }
}

fn all_true(actors: usize, choices: usize) -> (flags: Option<Vec<bool>>)
    ensures
        match flags {
            Some(f) => actors * choices <= usize::MAX && f@ == Seq::new(
                (actors * choices) as nat,
                |j: int| true,
            ),
            None => actors * choices > usize::MAX,
        },
{
    let n = match actors.checked_mul(choices) {
        Some(n) => n,
        None => {
            return None;
        },
    };
    let mut flags: Vec<bool> = Vec::new();
    let mut j: usize = 0;
    while j < n
        invariant
            j <= n,
            flags@.len() == j,
            forall|k: int| 0 <= k < j ==> flags@[k] == true,
        decreases n - j,
    {
        flags.push(true);
        j += 1;
    }
    assert(flags@ =~= Seq::new((actors * choices) as nat, |j: int| true));
    Some(flags)
}

/// Packs the masks that the observations of a round have for action type
/// `kind`: one row per observation, in the order given. An observation
/// without a mask for the type gives empty rows.
#[verifier::loop_isolation(false)]
pub fn pack_action_type<F>(space: &ActionSpace, kind: usize, obs: &[Box<Observation<F>>]) -> (packed:
    Result<MaskBatch, MergeError>)
    ensures
        match packed {
            Ok(batch) => type_fault(space@, obs@, kind as int) is None && is_mask_batch(
                batch,
                space@,
                obs@,
                kind as int,
            ),
            Err(e) => type_fault(space@, obs@, kind as int) == Some(e),
        },
{
    let choices = match space {
        ActionSpace::Categorical { choices } => {
            if choices.len() == 0 {
                return Err(MergeError::EmptyChoices);
            }
            choices.len()
        },
        ActionSpace::SelectEntity => 0,
    };
    let mut actors_buffer: RaggedBuffer<i64> = RaggedBuffer::new(1);
    let mut actees_buffer: RaggedBuffer<i64> = RaggedBuffer::new(1);
    let mut flags_buffer: RaggedBuffer<bool> = RaggedBuffer::new(choices);
    let ghost c = choices as nat;
    let mut k: usize = 0;
    assert(actors_buffer.rows() =~= Seq::new(0nat, |j: int| actor_row(mask_at(*obs@[j], kind as int))));
    assert(actees_buffer.rows() =~= Seq::new(0nat, |j: int| actee_row(mask_at(*obs@[j], kind as int))));
    assert(flags_buffer.rows() =~= Seq::new(0nat, |j: int| flag_row(mask_at(*obs@[j], kind as int), c)));
    while k < obs.len()
        invariant
            k <= obs@.len(),
            first_obs_fault(space@, obs@, kind as int, k as int) is None,
            actors_buffer.width() == 1,
            actees_buffer.width() == 1,
            flags_buffer.width() == choices,
            actors_buffer.rows() == Seq::new(
                k as nat,
                |j: int| actor_row(mask_at(*obs@[j], kind as int)),
            ),
            space is SelectEntity ==> actees_buffer.rows() == Seq::new(
                k as nat,
                |j: int| actee_row(mask_at(*obs@[j], kind as int)),
            ),
            space is Categorical ==> flags_buffer.rows() == Seq::new(
                k as nat,
                |j: int| flag_row(mask_at(*obs@[j], kind as int), c),
            ),
        decreases obs.len() - k,
    {
        let o = &obs[k];
        let ghost entry = mask_at(**o, kind as int);
        proof {
            if first_obs_fault(space@, obs@, kind as int, k as int + 1) is Some {
                lemma_obs_fault_stays(space@, obs@, kind as int, k as int + 1, obs@.len() as int);
            }
        }
        if kind >= o.actions.len() {
            return Err(MergeError::MissingMask);
        }
        let empty_ids: Vec<i64> = Vec::new();
        let empty_flags: Vec<bool> = Vec::new();
        match (&o.actions[kind], space) {
            (None, ActionSpace::Categorical { .. }) => {
                proof {
                    vstd::arithmetic::div_mod::lemma_mod_multiples_basic(0, choices as int);
                    assert(0 * choices == 0) by (nonlinear_arith);
                }
                actors_buffer.push(empty_ids.as_slice());
                flags_buffer.push(empty_flags.as_slice());
            },
            (None, ActionSpace::SelectEntity) => {
                actors_buffer.push(empty_ids.as_slice());
                actees_buffer.push(empty_ids.as_slice());
            },
            (Some(ActionMask::DenseCategorical { actors, mask }), ActionSpace::Categorical { .. }) => {
                let flags = match mask {
                    Some(m) => {
                        if m.len() % choices != 0 {
                            return Err(MergeError::MalformedMask);
                        }
                        crate::low_level::vec_obs::copy_flags(m)
                    },
                    None => match all_true(actors.len(), choices) {
                        Some(f) => {
                            proof {
                                vstd::arithmetic::div_mod::lemma_mod_multiples_basic(
                                    actors@.len() as int,
                                    choices as int,
                                );
                            }
                            f
                        },
                        None => {
                            return Err(MergeError::MalformedMask);
                        },
                    },
                };
                let raw = ids_to_raw(actors);
                actors_buffer.push(raw.as_slice());
                flags_buffer.push(flags.as_slice());
            },
            (Some(ActionMask::SelectEntity { actors, actees }), ActionSpace::SelectEntity) => {
                let raw = ids_to_raw(actors);
                let raw_actees = ids_to_raw(actees);
                actors_buffer.push(raw.as_slice());
                actees_buffer.push(raw_actees.as_slice());
            },
            _ => {
                return Err(MergeError::MaskKindMismatch);
            },
        }
        assert(actors_buffer.rows() =~= Seq::new(
            (k + 1) as nat,
            |j: int| actor_row(mask_at(*obs@[j], kind as int)),
        ));
        assert(space is SelectEntity ==> actees_buffer.rows() =~= Seq::new(
            (k + 1) as nat,
            |j: int| actee_row(mask_at(*obs@[j], kind as int)),
        ));
        assert(space is Categorical ==> flags_buffer.rows() =~= Seq::new(
            (k + 1) as nat,
            |j: int| flag_row(mask_at(*obs@[j], kind as int), c),
        ));
        k += 1;
    }
    match space {
        ActionSpace::Categorical { .. } => Ok((actors_buffer, None, Some(flags_buffer))),
        ActionSpace::SelectEntity => Ok((actors_buffer, Some(actees_buffer), None)),
    }
}

/// A copy of the flags of a dense mask.
pub fn copy_flags(flags: &Vec<bool>) -> (out: Vec<bool>)
    ensures
        out@ == flags@,
{
    let mut out: Vec<bool> = Vec::new();
    let mut i: usize = 0;
    while i < flags.len()
        invariant
            i <= flags@.len(),
            out@ == flags@.take(i as int),
        decreases flags.len() - i,
    {
        out.push(flags[i]);
        assert(flags@.take(i as int + 1) =~= flags@.take(i as int).push(flags@[i as int]));
        i += 1;
    }
    assert(flags@.take(flags@.len() as int) =~= flags@);
    out
}

/// The action types of a round with their spaces, as models.
pub open spec fn spaces_view(action_space: Seq<(ActionType, ActionSpace)>) -> Seq<
    (Seq<char>, ActionSpaceView),
> {
    Seq::new(action_space.len(), |i: int| (action_space[i].0@, action_space[i].1@))
}

/// The first fault among the first `upto` action types of a round.
pub open spec fn first_type_fault<F>(
    spaces: Seq<(Seq<char>, ActionSpaceView)>,
    obs: Seq<Box<Observation<F>>>,
    upto: int,
) -> Option<MergeError>
    decreases upto,
{
    if upto <= 0 {
        None
    } else {
        match first_type_fault(spaces, obs, upto - 1) {
            Some(e) => Some(e),
            None => type_fault(spaces[upto - 1].1, obs, upto - 1),
        }
    }
}

/// A fault among the first action types stays the result however many more
/// are looked at.
pub proof fn lemma_type_fault_stays<F>(
    spaces: Seq<(Seq<char>, ActionSpaceView)>,
    obs: Seq<Box<Observation<F>>>,
    from: int,
    upto: int,
)
    requires
        0 <= from <= upto,
        first_type_fault(spaces, obs, from) is Some,
    ensures
        first_type_fault(spaces, obs, upto) == first_type_fault(spaces, obs, from),
    decreases upto - from,
{
    if from < upto {
        lemma_type_fault_stays(spaces, obs, from, upto - 1);
    }
}

/// Packs the masks of a round: for each action type, in the order of the
/// action space, its name and the masks that the observations have for it.
pub fn pack_action_masks<F>(
    action_space: &Vec<(ActionType, ActionSpace)>,
    obs: &[Box<Observation<F>>],
) -> (packed: Result<Vec<(String, MaskBatch)>, MergeError>)
    ensures
        match packed {
            Ok(p) => {
                &&& first_type_fault(
                    spaces_view(action_space@),
                    obs@,
                    action_space@.len() as int,
                ) is None
                &&& p@.len() == action_space@.len()
                &&& forall|i: int|
                    0 <= i < p@.len() ==> (#[trigger] p@[i]).0@ == action_space@[i].0@
                        && is_mask_batch(p@[i].1, action_space@[i].1@, obs@, i)
            },
            Err(e) => first_type_fault(spaces_view(action_space@), obs@, action_space@.len() as int)
                == Some(e),
        },
{
    let mut packed: Vec<(String, MaskBatch)> = Vec::new();
    let mut i: usize = 0;
    while i < action_space.len()
        invariant
            i <= action_space@.len(),
            first_type_fault(spaces_view(action_space@), obs@, i as int) is None,
            packed@.len() == i,
            forall|k: int|
                0 <= k < i ==> (#[trigger] packed@[k]).0@ == action_space@[k].0@ && is_mask_batch(
                    packed@[k].1,
                    action_space@[k].1@,
                    obs@,
                    k,
                ),
        decreases action_space.len() - i,
    {
        assert(spaces_view(action_space@)[i as int].1 == action_space@[i as int].1@);
        match pack_action_type(&action_space[i].1, i, obs) {
            Ok(batch) => {
                packed.push((action_space[i].0.clone(), batch));
            },
            Err(e) => {
                proof {
                    lemma_type_fault_stays(
                        spaces_view(action_space@),
                        obs@,
                        i as int + 1,
                        action_space@.len() as int,
                    );
                }
                return Err(e);
            },
        }
        i += 1;
    }
    Ok(packed)
}

/// The rewards of a round, one per observation.
pub open spec fn rewards_of<F>(obs: Seq<Box<Observation<F>>>) -> Seq<F> {
    Seq::new(obs.len(), |k: int| obs[k].reward)
}

/// The `done` flags of a round, one per observation.
pub open spec fn dones_of<F>(obs: Seq<Box<Observation<F>>>) -> Seq<bool> {
    Seq::new(obs.len(), |k: int| obs[k].done)
}

/// The rewards and `done` flags of a round, one of each per observation, in
/// the order given.
pub fn collect_outcomes<F: Copy>(obs: &[Box<Observation<F>>]) -> (outcomes: (Vec<F>, Vec<bool>))
    ensures
        outcomes.0@ == rewards_of(obs@),
        outcomes.1@ == dones_of(obs@),
{
    let mut reward: Vec<F> = Vec::new();
    let mut done: Vec<bool> = Vec::new();
    let mut k: usize = 0;
    while k < obs.len()
        invariant
            k <= obs@.len(),
            reward@.len() == k,
            done@.len() == k,
            forall|j: int| 0 <= j < k ==> #[trigger] reward@[j] == obs@[j].reward,
            forall|j: int| 0 <= j < k ==> #[trigger] done@[j] == obs@[j].done,
        decreases obs.len() - k,
    {
        reward.push(obs[k].reward);
        done.push(obs[k].done);
        k += 1;
    }
    assert(reward@ =~= rewards_of(obs@));
    assert(done@ =~= dones_of(obs@));
    (reward, done)
}

/// The named metric values of the first `upto` observations of a round, as
/// one list in the order of the observations.
pub open spec fn round_metrics<F>(obs: Seq<Box<Observation<F>>>, upto: int) -> Seq<(Seq<char>, F)>
    decreases upto,
{
    if upto <= 0 {
        Seq::empty()
    } else {
        round_metrics(obs, upto - 1) + crate::low_level::env::metrics_view(obs[upto - 1].metrics@)
    }
}

/// Metric values by name, as a model.
pub open spec fn groups_view<F>(groups: Seq<(String, Vec<F>)>) -> Seq<(Seq<char>, Seq<F>)> {
    Seq::new(groups.len(), |i: int| (groups[i].0@, groups[i].1@))
}

fn find_group<F>(groups: &Vec<(String, Vec<F>)>, name: &String) -> (at: usize)
    ensures
        at == position(groups_view(groups@), name@),
        at <= groups@.len(),
{
    let mut i: usize = 0;
    while i < groups.len()
        invariant
            i <= groups@.len(),
            forall|k: int| 0 <= k < i ==> (#[trigger] groups_view(groups@)[k]).0 != name@,
        decreases groups.len() - i,
    {
        if groups[i].0 == *name {
            proof {
                assert(groups_view(groups@)[i as int].0 == name@);
                lemma_position_is(groups_view(groups@), name@, i as int);
            }
            return i;
        }
        i += 1;
    }
    proof {
        lemma_position_is(groups_view(groups@), name@, i as int);
    }
    i
}

/// Gathers the metrics of a round by name: the names in the order in which
/// they first occur, each with its values in the order of the observations.
/// The summary of a metric over the round is taken from its values.
pub fn group_metrics<F: Copy>(obs: &[Box<Observation<F>>]) -> (groups: Vec<(String, Vec<F>)>)
    ensures
        groups_view(groups@) == grouped(round_metrics(obs@, obs@.len() as int)),
{
    let mut groups: Vec<(String, Vec<F>)> = Vec::new();
    let mut k: usize = 0;
    assert(groups_view(groups@) =~= grouped(round_metrics(obs@, 0)));
    while k < obs.len()
        invariant
            k <= obs@.len(),
            groups_view(groups@) == grouped(round_metrics(obs@, k as int)),
        decreases obs.len() - k,
    {
        let metrics = &obs[k].metrics;
        let ghost before = round_metrics(obs@, k as int);
        let ghost here = crate::low_level::env::metrics_view(metrics@);
        let mut j: usize = 0;
        assert(before + here.take(0) =~= before);
        while j < metrics.len()
            invariant
                j <= metrics@.len(),
                here == crate::low_level::env::metrics_view(metrics@),
                groups_view(groups@) == grouped(before + here.take(j as int)),
            decreases metrics.len() - j,
        {
            let ghost pairs = before + here.take(j as int);
            let ghost next = before + here.take(j as int + 1);
            let ghost front = groups_view(groups@);
            proof {
                assert(next.drop_last() =~= pairs);
                assert(next.last() == (metrics@[j as int].0@, metrics@[j as int].1));
            }
            let at = find_group(&groups, &metrics[j].0);
            if at < groups.len() {
                proof {
                    lemma_position(front, metrics@[j as int].0@);
                }
                groups[at].1.push(metrics[j].1);
                assert(groups_view(groups@) =~= upsert(
                    front,
                    metrics@[j as int].0@,
                    front[at as int].1.push(metrics@[j as int].1),
                ));
            } else {
                let mut values: Vec<F> = Vec::new();
                values.push(metrics[j].1);
                groups.push((metrics[j].0.clone(), values));
                assert(groups_view(groups@) =~= upsert(
                    front,
                    metrics@[j as int].0@,
                    seq![metrics@[j as int].1],
                ));
            }
            j += 1;
        }
        assert(here.take(metrics@.len() as int) =~= here);
        k += 1;
    }
    groups
}

/// The observations of one round as one batch.
#[derive(Debug)]
pub struct VecObs<F> {
    /// Per entity type its name and the feature rows of every observation.
    pub features: Vec<(String, RaggedBuffer<F>)>,
    /// Per action type its name and the masks of every observation.
    pub action_masks: Vec<(String, MaskBatch)>,
    pub reward: Vec<F>,
    pub done: Vec<bool>,
    /// Per metric name the values that the observations hold for it.
    pub metrics: Vec<(String, Vec<F>)>,
}

/// What is wrong, if anything, with the features of a round.
pub open spec fn feature_fault<F>(obs_space: &ObsSpace, obs: Seq<Box<Observation<F>>>) -> Option<
    MergeError,
> {
    if exists|i: int| 0 <= i < obs_space@.len() && spec_widths(obs_space@)[i] == 0 {
        Some(MergeError::ZeroWidthEntity)
    } else if !all_features_fit(obs, num_feats_of(obs_space)) {
        Some(MergeError::MalformedObservation)
    } else {
        None
    }
}

/// What is wrong, if anything, with the observations of a round: a fault of
/// the features, or else the first fault of the masks.
pub open spec fn merge_fault<F>(
    obs_space: &ObsSpace,
    action_space: Seq<(ActionType, ActionSpace)>,
    obs: Seq<Box<Observation<F>>>,
) -> Option<MergeError> {
    match feature_fault(obs_space, obs) {
        Some(e) => Some(e),
        None => first_type_fault(spaces_view(action_space), obs, action_space.len() as int),
    }
}

/// Packs the observations of a round, given in the order of the global ids,
/// into one batch: features per entity type, masks per action type, the
/// rewards and `done` flags, and the metrics by name.
pub fn merge_obs<F: Copy>(
    obs_space: &ObsSpace,
    action_space: &Vec<(ActionType, ActionSpace)>,
    obs: &[Box<Observation<F>>],
) -> (merged: Result<VecObs<F>, MergeError>)
    ensures
        match merged {
            Ok(v) => {
                &&& merge_fault(obs_space, action_space@, obs@) is None
                &&& v.features@.len() == obs_space@.len()
                &&& forall|i: int|
                    0 <= i < v.features@.len() ==> {
                        &&& (#[trigger] v.features@[i]).0@ == obs_space@[i].0
                        &&& v.features@[i].1.width() == spec_widths(obs_space@)[i]
                        &&& v.features@[i].1.rows() == Seq::new(
                            obs@.len(),
                            |k: int| entity_rows(*obs@[k], num_feats_of(obs_space), i),
                        )
                    }
                &&& v.action_masks@.len() == action_space@.len()
                &&& forall|i: int|
                    0 <= i < v.action_masks@.len() ==> (#[trigger] v.action_masks@[i]).0@
                        == action_space@[i].0@ && is_mask_batch(
                        v.action_masks@[i].1,
                        action_space@[i].1@,
                        obs@,
                        i,
                    )
                &&& v.reward@ == rewards_of(obs@)
                &&& v.done@ == dones_of(obs@)
                &&& groups_view(v.metrics@) == grouped(round_metrics(obs@, obs@.len() as int))
            },
            Err(e) => merge_fault(obs_space, action_space@, obs@) == Some(e),
        },
{
    let features = match pack_features(obs_space, obs) {
        Ok(f) => f,
        Err(e) => {
            return Err(e);
        },
    };
    let action_masks = match pack_action_masks(action_space, obs) {
        Ok(m) => m,
        Err(e) => {
            return Err(e);
        },
    };
    let (reward, done) = collect_outcomes(obs);
    let metrics = group_metrics(obs);
    Ok(VecObs { features, action_masks, reward, done, metrics })
}

} // verus!
