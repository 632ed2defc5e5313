use entity_gym_rs::agent::obs::Obs;
use entity_gym_rs::agent::random::RandomAgent;
use entity_gym_rs::agent::rogue_net::{is_archive, ARCHIVE_EXTENSION};
use entity_gym_rs::agent::{out_of_turn, random, random_seeded, ActionReceiver, Agent};

#[test]
fn a_random_agent_stays_below_the_number_of_actions() {
    let mut agent = RandomAgent::from_seed(7);
    let obs = Obs::new(0.0f32);
    let mut seen = [false; 5];
    for _ in 0..500 {
        let index = agent.act_dyn("move", 5, &obs).unwrap().unwrap();
        assert!(index < 5);
        seen[index as usize] = true;
        let index = agent.act_async_dyn("move", 5, &obs).rcv_raw().unwrap().unwrap();
        assert!(index < 5);
    }
    assert!(seen.iter().all(|s| *s));
    assert_eq!(agent.pick(1), Some(0));
    assert_eq!(agent.act_dyn("move", 1, &obs), Ok(Some(0)));
    agent.game_over(&obs);
}

#[test]
fn a_random_agent_has_nothing_to_choose_from_no_actions() {
    let mut agent = RandomAgent::default();
    let obs = Obs::new(0.0f32);
    assert_eq!(agent.pick(0), None);
    assert_eq!(agent.act_dyn("move", 0, &obs), Ok(None));
    assert_eq!(agent.act_async_dyn("move", 0, &obs).rcv_raw(), Ok(None));
}

#[test]
fn equal_seeds_give_equal_choices() {
    let mut a = RandomAgent::from_seed(3);
    let mut b = RandomAgent::from_seed(3);
    let mut c = RandomAgent::from_seed(4);
    let from_a: Vec<_> = (0..32).map(|_| a.pick(1000)).collect();
    let from_b: Vec<_> = (0..32).map(|_| b.pick(1000)).collect();
    let from_c: Vec<_> = (0..32).map(|_| c.pick(1000)).collect();
    assert_eq!(from_a, from_b);
    assert_ne!(from_a, from_c);
}

#[test]
fn a_settled_receiver_hands_out_its_value() {
    assert_eq!(ActionReceiver::<u64>::value(4).rcv_raw(), Ok(Some(4)));
    assert_eq!(ActionReceiver::<u64>::value(4).typed::<u8>().rcv_raw(), Ok(Some(4)));
    assert_eq!(ActionReceiver::<u64>::nothing().rcv_raw(), Ok(None));
}

#[test]
fn some_but_not_all_outstanding_is_out_of_turn() {
    assert!(!out_of_turn(0, 2));
    assert!(out_of_turn(1, 2));
    assert!(!out_of_turn(2, 2));
    assert!(out_of_turn(3, 2));
    assert!(!out_of_turn(0, 1));
    assert!(!out_of_turn(1, 1));
    assert!(!out_of_turn(0, 0));
    assert!(out_of_turn(usize::MAX, 1));
}

#[test]
fn boxed_random_agents_act() {
    let obs = Obs::new(0.0f32);
    let mut a = random_seeded::<f32>(11);
    let mut b = random_seeded::<f32>(11);
    let mut c = random::<f32>();
    for _ in 0..20 {
        let index = a.act_dyn("move", 9, &obs).unwrap();
        assert_eq!(index, b.act_dyn("move", 9, &obs).unwrap());
        assert!(index.unwrap() < 9);
        assert!(c.act_dyn("move", 2, &obs).unwrap().unwrap() < 2);
    }
}

#[test]
fn only_the_archive_extension_makes_an_archive() {
    assert_eq!(ARCHIVE_EXTENSION, "roguenet");
    assert!(is_archive(Some("roguenet")));
    assert!(!is_archive(Some("Roguenet")));
    assert!(!is_archive(Some("roguenet ")));
    assert!(!is_archive(Some("")));
    assert!(!is_archive(Some("ron")));
    assert!(!is_archive(None));
}
