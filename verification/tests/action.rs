use entity_gym_rs::agent::action::{
    decode_digits, encode_digits, product_labels, product_num_actions, Action,
};

#[derive(PartialEq, Eq, Debug)]
enum Direction {
    Up,
    Down,
    Left,
    Right,
}

#[derive(PartialEq, Eq, Debug, Clone, Copy)]
enum Thrust {
    Full,
    Half,
    Idle,
}

#[derive(PartialEq, Eq, Debug)]
struct Move {
    direction: Direction,
    thrust: Thrust,
}

impl Action<'static> for Direction {
    fn from_u64(index: u64) -> Self {
        match index {
            0 => Direction::Up,
            1 => Direction::Down,
            2 => Direction::Left,
            3 => Direction::Right,
            _ => panic!("Invalid action index: {}", index),
        }
    }

    fn to_u64(&self) -> u64 {
        match self {
            Direction::Up => 0,
            Direction::Down => 1,
            Direction::Left => 2,
            Direction::Right => 3,
        }
    }

    fn num_actions() -> u64 {
        4
    }

    fn name() -> &'static str {
        "Direction"
    }

    fn labels() -> Vec<String> {
        vec!["Up".to_string(), "Down".to_string(), "Left".to_string(), "Right".to_string()]
    }
}

impl Action<'static> for Thrust {
    fn from_u64(index: u64) -> Self {
        match index {
            0 => Thrust::Full,
            1 => Thrust::Half,
            2 => Thrust::Idle,
            _ => panic!("Invalid action index: {}", index),
        }
    }

    fn to_u64(&self) -> u64 {
        match self {
            Thrust::Full => 0,
            Thrust::Half => 1,
            Thrust::Idle => 2,
        }
    }

    fn num_actions() -> u64 {
        3
    }

    fn name() -> &'static str {
        "Thrust"
    }

    fn labels() -> Vec<String> {
        vec!["Full".to_string(), "Half".to_string(), "None".to_string()]
    }
}

fn move_radices() -> Vec<u64> {
    vec![Direction::num_actions(), Thrust::num_actions()]
}

impl Action<'static> for Move {
    fn from_u64(index: u64) -> Self {
        let digits = decode_digits(index, &move_radices()).unwrap();
        Move { direction: Direction::from_u64(digits[0]), thrust: Thrust::from_u64(digits[1]) }
    }

    fn to_u64(&self) -> u64 {
        encode_digits(&vec![self.direction.to_u64(), self.thrust.to_u64()], &move_radices())
            .unwrap()
    }

    fn num_actions() -> u64 {
        product_num_actions(&move_radices()).unwrap()
    }

    fn name() -> &'static str {
        "Move"
    }

    fn labels() -> Vec<String> {
        product_labels(&vec![
            ("direction".to_string(), Direction::labels()),
            ("thrust".to_string(), Thrust::labels()),
        ])
    }
}

#[test]
fn test_action_from_u64() {
    assert_eq!(Direction::Up.to_u64(), 0);
    assert_eq!(Direction::Down.to_u64(), 1);
    assert_eq!(Direction::Left.to_u64(), 2);
    assert_eq!(Direction::Right.to_u64(), 3);
    assert_eq!(Move { direction: Direction::Up, thrust: Thrust::Full }.to_u64(), 0);
    assert_eq!(Move { direction: Direction::Up, thrust: Thrust::Half }.to_u64(), 1,);
    assert_eq!(Move { direction: Direction::Up, thrust: Thrust::Idle }.to_u64(), 2,);
    assert_eq!(Move { direction: Direction::Down, thrust: Thrust::Full }.to_u64(), 3,);
    assert_eq!(Move { direction: Direction::Down, thrust: Thrust::Half }.to_u64(), 4);
    assert_eq!(Move { direction: Direction::Down, thrust: Thrust::Idle }.to_u64(), 5);
}

#[test]
fn test_action_to_u64() {
    assert_eq!(Direction::from_u64(0), Direction::Up);
    assert_eq!(Direction::from_u64(1), Direction::Down);
    assert_eq!(Direction::from_u64(2), Direction::Left);
    assert_eq!(Direction::from_u64(3), Direction::Right);
    assert_eq!(Move::from_u64(0), Move { direction: Direction::Up, thrust: Thrust::Full });
    assert_eq!(Move::from_u64(1), Move { direction: Direction::Up, thrust: Thrust::Half });
    assert_eq!(Move::from_u64(7), Move { direction: Direction::Left, thrust: Thrust::Half });
}

#[test]
fn test_action_num_actions() {
    assert_eq!(Direction::num_actions(), 4);
}

#[test]
fn test_action_name() {
    assert_eq!(Direction::name(), "Direction");
}

#[test]
fn test_round_trip() {
    for thrust in [Thrust::Full, Thrust::Half, Thrust::Idle] {
        for direction in vec![Direction::Up, Direction::Down, Direction::Left, Direction::Right] {
            let action = Move { direction, thrust };
            let index = action.to_u64();
            let action2 = Move::from_u64(index);
            assert_eq!(action, action2);
        }
    }
}

#[test]
fn test_action_labels() {
    assert_eq!(Direction::labels(), &["Up", "Down", "Left", "Right"]);
    assert_eq!(
        Move::labels(),
        &[
            "direction=Up,thrust=Full",
            "direction=Up,thrust=Half",
            "direction=Up,thrust=None",
            "direction=Down,thrust=Full",
            "direction=Down,thrust=Half",
            "direction=Down,thrust=None",
            "direction=Left,thrust=Full",
            "direction=Left,thrust=Half",
            "direction=Left,thrust=None",
            "direction=Right,thrust=Full",
            "direction=Right,thrust=Half",
            "direction=Right,thrust=None",
        ]
    );
}

#[test]
fn product_of_no_parts_is_one_empty_combination() {
    assert_eq!(product_num_actions(&vec![]), Some(1));
    assert_eq!(encode_digits(&vec![], &vec![]), Some(0));
    assert_eq!(decode_digits(0, &vec![]), Some(vec![]));
    assert_eq!(decode_digits(1, &vec![]), None);
    assert_eq!(product_labels(&vec![]), vec!["".to_string()]);
}

#[test]
fn product_with_an_empty_part_has_no_combination() {
    assert_eq!(product_num_actions(&vec![4, 0, 3]), Some(0));
    assert_eq!(decode_digits(0, &vec![4, 0, 3]), None);
    assert_eq!(encode_digits(&vec![1, 0, 1], &vec![4, 0, 3]), None);
    let labels = product_labels(&vec![
        ("a".to_string(), vec!["x".to_string()]),
        ("b".to_string(), vec![]),
    ]);
    assert!(labels.is_empty());
}

#[test]
fn product_that_does_not_fit_is_refused() {
    assert_eq!(product_num_actions(&vec![1 << 32, 1 << 32]), None);
    assert_eq!(product_num_actions(&vec![1 << 32, 1 << 31]), Some(1 << 63));
    assert_eq!(encode_digits(&vec![(1 << 32) - 1, 5], &vec![1 << 32, 1 << 32]), Some(((1u64 << 32) - 1) * (1 << 32) + 5));
    assert_eq!(decode_digits(u64::MAX, &vec![1 << 32, 1 << 32]), Some(vec![(1 << 32) - 1, (1 << 32) - 1]));
}

#[test]
fn digits_out_of_range_are_refused() {
    assert_eq!(encode_digits(&vec![4, 0], &vec![4, 3]), None);
    assert_eq!(encode_digits(&vec![0], &vec![4, 3]), None);
    assert_eq!(encode_digits(&vec![3, 2], &vec![4, 3]), Some(11));
    assert_eq!(decode_digits(11, &vec![4, 3]), Some(vec![3, 2]));
    assert_eq!(decode_digits(12, &vec![4, 3]), None);
}

#[test]
fn decode_inverts_encode_on_every_combination() {
    let radices = vec![3, 1, 4, 2];
    let total = product_num_actions(&radices).unwrap();
    assert_eq!(total, 24);
    for index in 0..total {
        let digits = decode_digits(index, &radices).unwrap();
        assert!(digits.iter().zip(radices.iter()).all(|(d, r)| d < r));
        assert_eq!(encode_digits(&digits, &radices), Some(index));
    }
}
