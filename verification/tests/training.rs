use entity_gym_rs::agent::action::Action as Choice;
use entity_gym_rs::agent::featurizable::Featurizable;
use entity_gym_rs::agent::obs::{EntityFeatures, Obs};
use entity_gym_rs::agent::training::{
    agent_choices, copy_metrics, pack_entities, present, single_choice, step_observation,
    terminal_observation, ChoiceError, TrainAgent, TrainAgentEnv, TrainEnvBuilder,
};
use entity_gym_rs::agent::{typed_action, Agent, AgentError, AgentOps};
use entity_gym_rs::low_level::env::{Action, ActionMask, ActionSpace};
use entity_gym_rs::low_level::worker::{Environment, ShardWorker};

struct Head {
    x: f32,
    y: f32,
}

struct Food {
    x: f32,
}

impl Featurizable for Head {
    type Scalar = f32;

    fn num_feats() -> usize {
        2
    }

    fn feature_names() -> Vec<String> {
        vec!["x".to_string(), "y".to_string()]
    }

    fn featurize(&self) -> Vec<f32> {
        vec![self.x, self.y]
    }

    fn name() -> &'static str {
        "Head"
    }
}

impl Featurizable for Food {
    type Scalar = f32;

    fn num_feats() -> usize {
        1
    }

    fn feature_names() -> Vec<String> {
        vec!["x".to_string()]
    }

    fn featurize(&self) -> Vec<f32> {
        vec![self.x]
    }

    fn name() -> &'static str {
        "Food"
    }
}

#[derive(Debug, PartialEq)]
enum Turn {
    Left,
    Right,
    Ahead,
}

impl Choice<'static> for Turn {
    fn from_u64(index: u64) -> Self {
        match index {
            0 => Turn::Left,
            1 => Turn::Right,
            2 => Turn::Ahead,
            _ => panic!("Invalid action index: {}", index),
        }
    }

    fn to_u64(&self) -> u64 {
        match self {
            Turn::Left => 0,
            Turn::Right => 1,
            Turn::Ahead => 2,
        }
    }

    fn num_actions() -> u64 {
        3
    }

    fn name() -> &'static str {
        "Turn"
    }

    fn labels() -> Vec<String> {
        vec!["Left".to_string(), "Right".to_string(), "Ahead".to_string()]
    }
}

fn builder() -> TrainEnvBuilder {
    TrainEnvBuilder::default().entity::<Head>().entity::<Food>().action::<Turn>()
}

fn sight(score: f32) -> Obs<f32> {
    Obs::new(score)
        .entities(vec![Food { x: 9.0 }, Food { x: 8.0 }])
        .actors(vec![Head { x: 1.0, y: 2.0 }])
        .metric("length", 3.0)
}

fn choice(index: usize) -> Vec<Option<Action>> {
    vec![Some(Action::Categorical { actors: vec![0], action: vec![index] })]
}

#[test]
fn the_builder_registers_each_name_once() {
    let b = builder();
    assert!(b.has_entity("Head") && b.has_entity("Food") && !b.has_entity("Turn"));
    assert!(b.has_action("Turn") && !b.has_action("Head"));
    assert!(!TrainEnvBuilder::new().has_entity("Head"));
    assert_eq!(b.entity_names(), vec!["Head", "Food"]);
    let space = b.obs_space();
    assert_eq!(space.entities.len(), 2);
    assert_eq!(space.entities[0].0, "Head");
    assert_eq!(space.entities[0].1.features, vec!["x", "y"]);
    assert_eq!(space.entities[1].1.features, vec!["x"]);
    let actions = b.action_space();
    assert_eq!(actions.len(), 1);
    assert_eq!(actions[0].0, "Turn");
    match &actions[0].1 {
        ActionSpace::Categorical { choices } => assert_eq!(choices, &vec!["Left", "Right", "Ahead"]),
        ActionSpace::SelectEntity => panic!("not categorical"),
    }
}

#[test]
fn entities_are_laid_out_in_the_declared_order() {
    let names = vec!["Head".to_string(), "Ghost".to_string(), "Food".to_string()];
    let features = pack_entities(&names, &sight(0.0));
    assert_eq!(features.counts, vec![1, 0, 2]);
    assert_eq!(features.data, vec![1.0, 2.0, 9.0, 8.0]);
    let features = pack_entities(&vec!["Food".to_string()], &sight(0.0));
    assert_eq!(features.counts, vec![2]);
    assert_eq!(features.data, vec![9.0, 8.0]);
    let features = pack_entities(&Vec::new(), &sight(0.0));
    assert!(features.counts.is_empty() && features.data.is_empty());
}

#[test]
fn the_reward_is_the_gain_in_score() {
    let names = builder().entity_names();
    let first = step_observation(&names, None, &sight(5.0));
    assert_eq!(first.reward, 0.0);
    assert!(!first.done);
    assert_eq!(first.features.counts, vec![1, 2]);
    assert_eq!(first.features.data, vec![1.0, 2.0, 9.0, 8.0]);
    assert_eq!(first.ids, vec![None]);
    assert_eq!(first.actions.len(), 1);
    match &first.actions[0] {
        Some(ActionMask::DenseCategorical { actors, mask }) => {
            assert_eq!(actors, &vec![0]);
            assert!(mask.is_none());
        }
        _ => panic!("not a dense mask"),
    }
    assert_eq!(first.metrics, vec![("length".to_string(), 3.0)]);
    let next = step_observation(&names, Some(5.0), &sight(7.5));
    assert_eq!(next.reward, 2.5);
    assert_eq!(copy_metrics(&next.metrics), next.metrics);
}

#[test]
fn the_terminal_observation_holds_no_entity() {
    let last = terminal_observation(3, Some(5.0), &sight(4.0));
    assert_eq!(last.features.counts, vec![0, 0, 0]);
    assert!(last.features.data.is_empty());
    assert_eq!(last.ids, vec![None]);
    assert_eq!(last.actions.len(), 1);
    assert!(last.actions[0].is_none());
    assert!(last.done);
    assert_eq!(last.reward, -1.0);
    assert_eq!(last.metrics, vec![("length".to_string(), 3.0)]);
    let unset = terminal_observation(0, None, &sight(4.0));
    assert_eq!(unset.reward, 4.0);
    assert!(unset.features.counts.is_empty());
}

#[test]
fn an_agent_takes_one_categorical_choice() {
    assert_eq!(single_choice(&choice(2)), Ok(2));
    assert_eq!(single_choice(&vec![]), Err(ChoiceError::WrongActionCount));
    assert_eq!(
        single_choice(&vec![choice(1).pop().unwrap(), None]),
        Err(ChoiceError::WrongActionCount)
    );
    assert_eq!(single_choice(&vec![None]), Err(ChoiceError::NoAction));
    assert_eq!(
        single_choice(&vec![Some(Action::SelectEntity { actors: vec![0], actees: vec![1] })]),
        Err(ChoiceError::UnexpectedAction)
    );
    assert_eq!(
        single_choice(&vec![Some(Action::Categorical { actors: vec![0], action: vec![] })]),
        Err(ChoiceError::WrongChoiceCount)
    );
    assert_eq!(
        single_choice(&vec![Some(Action::Categorical { actors: vec![0, 1], action: vec![1, 2] })]),
        Err(ChoiceError::WrongChoiceCount)
    );
    assert_eq!(agent_choices(&[choice(2), choice(0)], 2), Ok(vec![2, 0]));
    assert_eq!(agent_choices(&[], 0), Ok(vec![]));
    assert_eq!(agent_choices(&[choice(2)], 2), Err(ChoiceError::WrongAgentCount));
    assert_eq!(agent_choices(&[vec![None], vec![]], 2), Err(ChoiceError::NoAction));
    assert_eq!(agent_choices(&[choice(1), vec![]], 2), Err(ChoiceError::WrongActionCount));
}

fn pair() -> (TrainAgentEnv<f32, 2>, TrainAgent<f32>, TrainAgent<f32>) {
    let (env, mut agents) = builder().build_parts::<f32, 2>();
    assert_eq!(agents.len(), 2);
    let b = agents.pop().unwrap();
    let a = agents.pop().unwrap();
    (env, a, b)
}

#[test]
fn waiting_before_the_sibling_sent_is_out_of_turn() {
    let (_env, mut a, _b) = pair();
    assert_eq!(a.act_dyn("Turn", 3, &sight(0.0)), Err(AgentError::OutOfTurn));
    assert!(AgentError::OutOfTurn.message().contains("call the `act_async` on every agent"));
    let (_env, mut a, _b) = pair();
    assert_eq!(a.act::<Turn>(&sight(0.0)), Err(AgentError::OutOfTurn));
}

#[test]
fn waiting_after_the_first_of_two_sent_asynchronously_is_out_of_turn() {
    let (_env, mut a, _b) = pair();
    let pending = a.act_async_dyn("Turn", 3, &sight(0.0));
    assert_eq!(pending.rcv_raw(), Err(AgentError::OutOfTurn));
}

#[test]
fn sending_all_observations_before_any_wait_is_in_turn() {
    let (mut env, mut a, mut b) = pair();
    let first_a = a.act_async::<Turn>(&sight(1.0));
    let first_b = b.act_async_dyn("Turn", 3, &sight(10.0));
    let obs = env.reset();
    assert_eq!(obs.len(), 2);
    assert_eq!(obs.iter().map(|o| o.reward).collect::<Vec<_>>(), vec![0.0, 0.0]);

    let second_a = a.act_async_dyn("Turn", 3, &sight(3.0));
    let second_b = b.act_async_dyn("Turn", 3, &sight(10.5));
    let obs = env.act(&[choice(2), choice(1)]);
    assert_eq!(obs.iter().map(|o| o.reward).collect::<Vec<_>>(), vec![2.0, 0.5]);
    assert_eq!(first_a.rcv(), Ok(Some(Turn::Ahead)));
    assert_eq!(first_b.rcv_raw(), Ok(Some(1)));

    a.game_over(&sight(2.0));
    b.game_over(&sight(11.0));
    let obs = env.act(&[choice(0), choice(0)]);
    assert_eq!(obs.iter().map(|o| (o.done, o.reward)).collect::<Vec<_>>(), vec![(true, -1.0), (true, 0.5)]);
    assert_eq!(obs[0].features.counts, vec![0, 0]);
    assert_eq!(second_b.rcv_raw(), Ok(Some(0)));
    assert_eq!(second_a.rcv_raw(), Ok(Some(0)));

    let restart = a.act_async_dyn("Turn", 3, &sight(8.0));
    b.game_over(&sight(0.0));
    let obs = env.reset();
    assert_eq!(obs.iter().map(|o| o.reward).collect::<Vec<_>>(), vec![0.0, 0.0]);
    drop(env);
    assert_eq!(restart.rcv_raw(), Err(AgentError::OutOfTurn));
}

#[test]
fn a_single_agent_may_block() {
    let (mut env, mut agents) = builder().build_parts::<f32, 1>();
    let mut agent = agents.pop().unwrap();
    assert_eq!(<TrainAgentEnv<f32, 1> as Environment>::agents(), 1);
    assert_eq!(env.obs_space().entities.len(), 2);
    assert_eq!(env.action_space()[0].0, "Turn");
    let first = agent.act_async_dyn("Turn", 3, &sight(1.0));
    assert_eq!(env.reset().len(), 1);
    assert!(env.act(&[vec![None]]).is_empty());
    assert!(env.act(&[]).is_empty());
    assert!(env.act(&[choice(1), choice(1)]).is_empty());
    agent.game_over(&sight(4.0));
    let obs = env.act(&[choice(1)]);
    assert_eq!(obs.len(), 1);
    assert_eq!(obs[0].reward, 3.0);
    assert_eq!(first.rcv_raw(), Ok(Some(1)));
    drop(env);
    assert_eq!(agent.act::<Turn>(&sight(0.0)), Ok(None));
}

#[test]
fn a_worker_steps_training_environments() {
    let made = ShardWorker::<TrainAgentEnv<f32, 2>>::new(
        &|_seed| builder().build_parts::<f32, 2>().0,
        4,
        1,
        0,
        0,
    )
    .unwrap();
    assert_eq!(made.agents(), 2);
    assert_eq!(made.envs().len(), 2);
}

#[test]
fn entities_of_one_type_replace_those_before() {
    let obs = sight(0.0).entities(vec![Food { x: 1.0 }]).metric("length", 4.0).metric("age", 1.0);
    let food = obs.get("Food").unwrap();
    assert_eq!(food.features, vec![1.0]);
    assert_eq!((food.num_entities, food.num_features, food.is_actor), (1, 1, false));
    let head = obs.get("Head").unwrap();
    assert_eq!((head.num_entities, head.num_features, head.is_actor), (1, 2, true));
    assert!(obs.get("Ghost").is_none());
    assert_eq!(obs.metrics(), &vec![("length".to_string(), 4.0), ("age".to_string(), 1.0)]);
    assert_eq!(obs.score(), 0.0);
    assert!(!obs.done());
    assert_eq!(obs.num_actors(), 1);
    assert_eq!(Obs::new(1.5f32).num_actors(), 0);
    let crowd = Obs::new(0.0f32)
        .with_entity(
            "A",
            EntityFeatures { features: vec![], num_entities: usize::MAX, num_features: 0, is_actor: true },
        )
        .with_entity(
            "B",
            EntityFeatures { features: vec![], num_entities: 2, num_features: 0, is_actor: true },
        )
        .with_entity(
            "C",
            EntityFeatures { features: vec![], num_entities: 5, num_features: 0, is_actor: false },
        );
    assert_eq!(crowd.num_actors(), usize::MAX);
    let empty = Obs::new(0.0f32).entities(Vec::<Food>::new());
    assert_eq!(empty.get("Food").unwrap().num_entities, 0);
}

#[test]
fn the_observations_that_came_are_handed_on_in_order() {
    let names = builder().entity_names();
    let came = |score: f32| Some(step_observation(&names, Some(0.0), &sight(score)));
    let obs = present(vec![None, came(1.0), None, None, came(2.0), came(3.0), None]);
    assert_eq!(obs.iter().map(|o| o.reward).collect::<Vec<_>>(), vec![1.0, 2.0, 3.0]);
    assert!(present::<f32>(vec![]).is_empty());
    assert!(present::<f32>(vec![None, None]).is_empty());
    assert_eq!(present(vec![came(4.0)]).len(), 1);
}

#[test]
fn a_raw_index_becomes_a_typed_choice() {
    assert_eq!(typed_action::<Turn>(Ok(Some(1))), Ok(Some(Turn::Right)));
    assert_eq!(typed_action::<Turn>(Ok(None)), Ok(None));
    assert_eq!(typed_action::<Turn>(Err(AgentError::OutOfTurn)), Err(AgentError::OutOfTurn));
}
