use entity_gym_rs::low_level::decode::{decode_agent, decode_row, ProtocolViolation};
use entity_gym_rs::low_level::env::{Action, ActionMask};
use entity_gym_rs::low_level::ragged_buffer::RaggedBuffer;
use entity_gym_rs::low_level::worker::decode_shard;

fn categorical(actors: Vec<u64>) -> Option<ActionMask> {
    Some(ActionMask::DenseCategorical { actors, mask: None })
}

fn select(actors: Vec<u64>, actees: Vec<u64>) -> Option<ActionMask> {
    Some(ActionMask::SelectEntity { actors, actees })
}

fn parts(action: &Option<Action>) -> (bool, Vec<u64>, Vec<u64>) {
    match action {
        Some(Action::Categorical { actors, action }) => {
            (true, actors.clone(), action.iter().map(|x| *x as u64).collect())
        }
        Some(Action::SelectEntity { actors, actees }) => (false, actors.clone(), actees.clone()),
        None => panic!("no action"),
    }
}

#[test]
fn a_categorical_row_holds_one_choice_per_actor() {
    let decoded = decode_row(&[2, 0, 3], &categorical(vec![7, 8, 9])).unwrap();
    assert_eq!(parts(&decoded), (true, vec![7, 8, 9], vec![2, 0, 3]));
    let decoded = decode_row(&[], &categorical(vec![7, 8, 9])).unwrap();
    assert_eq!(parts(&decoded), (true, vec![7, 8, 9], vec![]));
}

#[test]
fn a_select_entity_row_holds_positions_among_the_actees() {
    let decoded = decode_row(&[1, 1, 0], &select(vec![7, 8, 9], vec![40, 50])).unwrap();
    assert_eq!(parts(&decoded), (false, vec![7, 8, 9], vec![50, 50, 40]));
}

#[test]
fn without_a_mask_there_is_no_action() {
    assert!(decode_row(&[1, 2, 3], &None).unwrap().is_none());
}

#[test]
fn an_actor_that_left_the_mask_is_refused() {
    assert_eq!(
        decode_row(&[0, 0, 0], &categorical(vec![7, 8])).err(),
        Some(ProtocolViolation::StaleActor)
    );
    assert_eq!(
        decode_row(&[0], &select(vec![], vec![40])).err(),
        Some(ProtocolViolation::StaleActor)
    );
    assert_eq!(
        decode_row(&[-1, 0, 0], &categorical(vec![7, 8])).err(),
        Some(ProtocolViolation::StaleActor)
    );
}

#[test]
fn an_actee_that_left_the_mask_is_refused() {
    assert_eq!(
        decode_row(&[0, 2], &select(vec![7, 8], vec![40, 50])).err(),
        Some(ProtocolViolation::StaleActee)
    );
    assert_eq!(
        decode_row(&[-1], &select(vec![7, 8], vec![40, 50])).err(),
        Some(ProtocolViolation::StaleActee)
    );
    assert_eq!(
        decode_row(&[0], &select(vec![7], vec![])).err(),
        Some(ProtocolViolation::StaleActee)
    );
}

#[test]
fn a_negative_choice_is_refused() {
    assert_eq!(
        decode_row(&[0, -1], &categorical(vec![7, 8])).err(),
        Some(ProtocolViolation::InvalidChoice)
    );
    let decoded = decode_row(&[i64::MAX], &categorical(vec![7])).unwrap();
    assert_eq!(parts(&decoded), (true, vec![7], vec![i64::MAX as u64]));
}

fn batch() -> Vec<Option<RaggedBuffer<i64>>> {
    vec![
        Some(RaggedBuffer::from_lengths(vec![1, 2, 3], &[1, 2], 1).unwrap()),
        None,
        Some(RaggedBuffer::from_lengths(vec![0, 1], &[1, 1], 1).unwrap()),
    ]
}

#[test]
fn an_agent_gets_its_row_of_every_action_type() {
    let masks = vec![categorical(vec![5, 6]), categorical(vec![5]), select(vec![5], vec![8, 9])];
    let decoded = decode_agent(&batch(), &masks, 1).unwrap();
    assert_eq!(decoded.len(), 3);
    assert_eq!(parts(&decoded[0]), (true, vec![5, 6], vec![2, 3]));
    assert!(decoded[1].is_none());
    assert_eq!(parts(&decoded[2]), (false, vec![5], vec![9]));
    let decoded = decode_agent(&batch(), &masks, 0).unwrap();
    assert_eq!(parts(&decoded[0]), (true, vec![5, 6], vec![1]));
    assert_eq!(parts(&decoded[2]), (false, vec![5], vec![8]));
}

#[test]
fn the_first_violation_in_the_order_of_the_action_types_is_reported() {
    let masks = vec![categorical(vec![5]), None, select(vec![5], vec![8])];
    assert_eq!(decode_agent(&batch(), &masks, 1).err(), Some(ProtocolViolation::StaleActor));
    let masks = vec![categorical(vec![5, 6]), None, select(vec![5], vec![8])];
    assert_eq!(decode_agent(&batch(), &masks, 1).err(), Some(ProtocolViolation::StaleActee));
    assert_eq!(decode_agent(&batch(), &masks, 2).err(), Some(ProtocolViolation::MissingRow));
    let masks = vec![categorical(vec![5, 6]), None];
    assert_eq!(
        decode_agent(&batch(), &masks, 0).err(),
        Some(ProtocolViolation::UnknownActionType)
    );
    let masks = vec![None];
    assert_eq!(
        decode_agent(&vec![None, None], &masks, 9).map(|a| a.len()),
        Ok(2)
    );
}

#[test]
fn a_shard_is_decoded_by_global_id() {
    let masks = vec![vec![categorical(vec![5, 6]), None, select(vec![5], vec![8, 9])]];
    let decoded = decode_shard(&batch(), &masks, 1).unwrap();
    assert_eq!(decoded.len(), 1);
    assert_eq!(parts(&decoded[0][0]), (true, vec![5, 6], vec![2, 3]));
    let masks = vec![
        vec![categorical(vec![5]), None, select(vec![5], vec![8, 9])],
        vec![categorical(vec![5]), None, select(vec![5], vec![8, 9])],
    ];
    assert_eq!(decode_shard(&batch(), &masks, 0).err(), Some(ProtocolViolation::StaleActor));
    assert_eq!(decode_shard(&batch(), &masks, 1).err(), Some(ProtocolViolation::StaleActor));
    assert_eq!(decode_shard(&batch(), &Vec::new(), 7).map(|a| a.len()), Ok(0));
}
