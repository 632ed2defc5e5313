use crate::low_level::env::{
    copy_ids, masks_view, actions_view, Action, ActionMask, ActionMaskView, ActionView, EntityId,
};
use crate::low_level::ragged_buffer::RaggedBuffer;
use vstd::prelude::*;

verus! {

/// Why a batch of raw actions does not fit the masks of the last observation.
#[derive(Debug, Clone, Copy, PartialEq, Eq, Structural)]
pub enum ProtocolViolation {
    /// The batch has no row for the instance.
    MissingRow,
    /// The batch holds an action type that the last observation has no mask for.
    UnknownActionType,
    /// The row decides for more actors than the mask has: it refers to an
    /// actor that is not there.
    StaleActor,
    /// A choice is negative or does not fit the machine word.
    InvalidChoice,
    /// A selected position is not among the actees of the mask.
    StaleActee,
}

/// Whether a raw value is a position in a list of `len` entries.
pub open spec fn is_position(x: i64, len: nat) -> bool {
    0 <= x < len
}

/// Whether a raw value can stand for a choice.
pub open spec fn is_choice(x: i64) -> bool {
    0 <= x <= usize::MAX
}

/// What one row of raw actions means under one mask.
pub open spec fn spec_decode_row(row: Seq<i64>, mask: Option<ActionMaskView>) -> Result<
    Option<ActionView>,
    ProtocolViolation,
> {
    match mask {
        None => Ok(None),
        Some(ActionMaskView::DenseCategorical { actors, mask: _ }) => {
            if row.len() > actors.len() {
                Err(ProtocolViolation::StaleActor)
            } else if exists|k: int| 0 <= k < row.len() && !#[trigger] is_choice(row[k]) {
                Err(ProtocolViolation::InvalidChoice)
            } else {
                Ok(
                    Some(
                        ActionView::Categorical {
                            actors,
                            action: Seq::new(row.len(), |k: int| row[k] as usize),
                        },
                    ),
                )
            }
        },
        Some(ActionMaskView::SelectEntity { actors, actees }) => {
            if row.len() > actors.len() {
                Err(ProtocolViolation::StaleActor)
            } else if exists|k: int|
                0 <= k < row.len() && !#[trigger] is_position(row[k], actees.len()) {
                Err(ProtocolViolation::StaleActee)
            } else {
                Ok(
                    Some(
                        ActionView::SelectEntity {
                            actors,
                            actees: Seq::new(row.len(), |k: int| actees[row[k] as int]),
                        },
                    ),
                )
            }
        },
    }
}

/// The actors of a mask.
pub open spec fn mask_actors(mask: ActionMaskView) -> Seq<EntityId> {
    match mask {
        ActionMaskView::DenseCategorical { actors, .. } => actors,
        ActionMaskView::SelectEntity { actors, .. } => actors,
    }
}

/// A row that refers to what the mask does not hold is refused, whatever
/// else it holds: a decision for an actor beyond the mask's actors, or a
/// position beyond the mask's actees.
pub proof fn lemma_stale_reference_is_refused(row: Seq<i64>, mask: ActionMaskView, k: int)
    requires
        0 <= k < row.len(),
    ensures
        k >= mask_actors(mask).len() ==> spec_decode_row(row, Some(mask)) == Err::<
            Option<ActionView>,
            ProtocolViolation,
        >(ProtocolViolation::StaleActor),
        mask matches ActionMaskView::SelectEntity { actors, actees } && !is_position(
            row[k],
            actees.len(),
        ) ==> spec_decode_row(row, Some(mask)) is Err,
{
}

/// The model of an optional action.
pub open spec fn action_view(action: Option<Action>) -> Option<ActionView> {
    match action {
        Some(a) => Some(a@),
        None => None,
    }
}

/// The model of a decoding result.
pub open spec fn decoded_view(decoded: Result<Option<Action>, ProtocolViolation>) -> Result<
    Option<ActionView>,
    ProtocolViolation,
> {
    match decoded {
        Ok(a) => Ok(action_view(a)),
        Err(e) => Err(e),
    }
}

/// The model of an optional mask.
pub open spec fn mask_view(mask: Option<ActionMask>) -> Option<ActionMaskView> {
    match mask {
        Some(m) => Some(m@),
        None => None,
    }
}

/// Decodes one row of raw actions with the mask that the instance gave with
/// its last observation. The actors are those of the mask; a categorical row
/// holds one choice per actor, a select-entity row one position among the
/// mask's actees per actor. A row that refers to an actor or an actee that the
/// mask does not hold is refused.
#[verifier::loop_isolation(false)]
pub fn decode_row(row: &[i64], mask: &Option<ActionMask>) -> (decoded: Result<
    Option<Action>,
    ProtocolViolation,
>)
    ensures
        decoded_view(decoded) == spec_decode_row(row@, mask_view(*mask)),
{
    match mask {
        None => Ok(None),
        Some(ActionMask::DenseCategorical { actors, mask: _ }) => {
            if row.len() > actors.len() {
                return Err(ProtocolViolation::StaleActor);
            }
            let mut action: Vec<usize> = Vec::new();
            let mut k: usize = 0;
            while k < row.len()
                invariant
                    k <= row@.len(),
                    action@.len() == k,
                    forall|j: int| 0 <= j < k ==> #[trigger] is_choice(row@[j]),
                    forall|j: int| 0 <= j < k ==> action@[j] == row@[j] as usize,
                decreases row.len() - k,
            {
                let x = row[k];
                if x < 0 || x as u64 > usize::MAX as u64 {
                    assert(!is_choice(row@[k as int]));
                    return Err(ProtocolViolation::InvalidChoice);
                }
                action.push(x as usize);
                k += 1;
            }
            let decoded = Action::Categorical { actors: copy_ids(actors), action };
            assert(decoded@->Categorical_action =~= Seq::new(
                row@.len(),
                |k: int| row@[k] as usize,
            ));
            Ok(Some(decoded))
        },
        Some(ActionMask::SelectEntity { actors, actees }) => {
            if row.len() > actors.len() {
                return Err(ProtocolViolation::StaleActor);
            }
            let mut chosen: Vec<EntityId> = Vec::new();
            let mut k: usize = 0;
            while k < row.len()
                invariant
                    k <= row@.len(),
                    chosen@.len() == k,
                    forall|j: int| 0 <= j < k ==> #[trigger] is_position(row@[j], actees@.len()),
                    forall|j: int| 0 <= j < k ==> chosen@[j] == actees@[row@[j] as int],
                decreases row.len() - k,
            {
                let x = row[k];
                if x < 0 || x as u64 >= actees.len() as u64 {
                    assert(!is_position(row@[k as int], actees@.len()));
                    return Err(ProtocolViolation::StaleActee);
                }
                chosen.push(actees[x as usize]);
                k += 1;
            }
            let decoded = Action::SelectEntity { actors: copy_ids(actors), actees: chosen };
            assert(decoded@->SelectEntity_actees =~= Seq::new(
                row@.len(),
                |k: int| actees@[row@[k] as int],
            ));
            Ok(Some(decoded))
        },
    }
}

/// What the batch means for one action type of the instance with global id
/// `id`: no action where the batch holds no buffer for the type, else the
/// instance's row under the mask of that type.
pub open spec fn spec_decode_type(
    buffer: Option<RaggedBuffer<i64>>,
    masks: Seq<Option<ActionMaskView>>,
    kind: int,
    id: int,
) -> Result<Option<ActionView>, ProtocolViolation> {
    match buffer {
        None => Ok(None),
        Some(b) => {
            if id >= b.rows().len() {
                Err(ProtocolViolation::MissingRow)
            } else if kind >= masks.len() {
                Err(ProtocolViolation::UnknownActionType)
            } else {
                spec_decode_row(b.rows()[id], masks[kind])
            }
        },
    }
}

/// What the batch means for the first `upto` action types of the instance
/// with global id `id`: the first violation in the order of the action types,
/// or the decoded actions.
pub open spec fn spec_decode_agent(
    batch: Seq<Option<RaggedBuffer<i64>>>,
    masks: Seq<Option<ActionMaskView>>,
    id: int,
    upto: int,
) -> Result<Seq<Option<ActionView>>, ProtocolViolation>
    decreases upto,
{
    if upto <= 0 {
        Ok(Seq::empty())
    } else {
        match spec_decode_agent(batch, masks, id, upto - 1) {
            Err(e) => Err(e),
            Ok(front) => match spec_decode_type(batch[upto - 1], masks, upto - 1, id) {
                Err(e) => Err(e),
                Ok(a) => Ok(front.push(a)),
            },
        }
    }
}

/// A violation among the first action types stays the result however many
/// more are decoded.
pub proof fn lemma_violation_stays(
    batch: Seq<Option<RaggedBuffer<i64>>>,
    masks: Seq<Option<ActionMaskView>>,
    id: int,
    from: int,
    upto: int,
)
    requires
        0 <= from <= upto,
        spec_decode_agent(batch, masks, id, from) is Err,
    ensures
        spec_decode_agent(batch, masks, id, upto) == spec_decode_agent(batch, masks, id, from),
    decreases upto - from,
{
    if from < upto {
        lemma_violation_stays(batch, masks, id, from, upto - 1);
    }
}

/// The model of the decoded actions of one agent.
pub open spec fn agent_view(decoded: Result<Vec<Option<Action>>, ProtocolViolation>) -> Result<
    Seq<Option<ActionView>>,
    ProtocolViolation,
> {
    match decoded {
        Ok(a) => Ok(actions_view(a@)),
        Err(e) => Err(e),
    }
}

/// Decodes the actions of the instance with global id `id` out of the round's
/// batch, which holds one buffer per action type with one row per instance,
/// under the masks of the instance's last observation.
pub fn decode_agent(
    batch: &Vec<Option<RaggedBuffer<i64>>>,
    masks: &Vec<Option<ActionMask>>,
    id: usize,
) -> (decoded: Result<Vec<Option<Action>>, ProtocolViolation>)
    ensures
        agent_view(decoded) == spec_decode_agent(
            batch@,
            masks_view(masks@),
            id as int,
            batch@.len() as int,
        ),
{
    let mut out: Vec<Option<Action>> = Vec::new();
    let mut kind: usize = 0;
    assert(actions_view(out@) =~= Seq::<Option<ActionView>>::empty());
    while kind < batch.len()
        invariant
            kind <= batch@.len(),
            spec_decode_agent(batch@, masks_view(masks@), id as int, kind as int) == Ok::<
                Seq<Option<ActionView>>,
                ProtocolViolation,
            >(actions_view(out@)),
        decreases batch.len() - kind,
    {
        let ghost front = actions_view(out@);
        let action = match &batch[kind] {
            None => None,
            Some(buffer) => {
                let row = match buffer.slice(id) {
                    Ok(r) => r,
                    Err(_) => {
                        proof {
                            lemma_violation_stays(
                                batch@,
                                masks_view(masks@),
                                id as int,
                                kind as int + 1,
                                batch@.len() as int,
                            );
                        }
                        return Err(ProtocolViolation::MissingRow);
                    },
                };
                if kind >= masks.len() {
                    proof {
                        lemma_violation_stays(
                            batch@,
                            masks_view(masks@),
                            id as int,
                            kind as int + 1,
                            batch@.len() as int,
                        );
                    }
                    return Err(ProtocolViolation::UnknownActionType);
                }
                assert(masks_view(masks@)[kind as int] == mask_view(masks@[kind as int]));
                match decode_row(row, &masks[kind]) {
                    Ok(a) => a,
                    Err(e) => {
                        proof {
                            lemma_violation_stays(
                                batch@,
                                masks_view(masks@),
                                id as int,
                                kind as int + 1,
                                batch@.len() as int,
                            );
                        }
                        return Err(e);
                    },
                }
            },
        };
        out.push(action);
        assert(actions_view(out@) =~= front.push(action_view(action)));
        kind += 1;
    }
    Ok(out)
}

} // verus!
