use entity_gym_rs::agent::featurizable::{
    decimal, flag_names, indexed, nested, nested_names, Featurizable,
};

struct Pos {
    x: f32,
    y: f32,
}

#[allow(dead_code)]
enum Stance {
    Calm,
    Wrath,
    Divinity,
    Idle,
}

struct Hero {
    pos: Pos,
    level: u32,
    alive: bool,
    stance: Stance,
    cooldowns: [f32; 3],
    prev_positions: [Pos; 2],
}

impl Featurizable for Pos {
    type Scalar = f32;

    fn num_feats() -> usize {
        1 + 1
    }

    fn feature_names() -> Vec<String> {
        vec!["x".to_string(), "y".to_string()]
    }

    fn featurize(&self) -> Vec<f32> {
        vec![self.x, self.y]
    }

    fn name() -> &'static str {
        "Pos"
    }
}

impl Featurizable for Stance {
    type Scalar = f32;

    fn num_feats() -> usize {
        4
    }

    fn feature_names() -> Vec<String> {
        flag_names(&vec![
            "Calm".to_string(),
            "Wrath".to_string(),
            "Divinity".to_string(),
            "None".to_string(),
        ])
    }

    fn featurize(&self) -> Vec<f32> {
        let flag = |on: bool| if on { 1.0 } else { 0.0 };
        vec![
            flag(matches!(self, Stance::Calm)),
            flag(matches!(self, Stance::Wrath)),
            flag(matches!(self, Stance::Divinity)),
            flag(matches!(self, Stance::Idle)),
        ]
    }

    fn name() -> &'static str {
        "Stance"
    }
}

impl Featurizable for Hero {
    type Scalar = f32;

    fn num_feats() -> usize {
        Pos::num_feats() + 1 + 1 + Stance::num_feats() + 3 + 2 * Pos::num_feats()
    }

    fn feature_names() -> Vec<String> {
        let mut names = Vec::with_capacity(Self::num_feats());
        names.extend(nested_names("pos", &Pos::feature_names()));
        names.push("level".to_string());
        names.push("alive".to_string());
        names.extend(nested_names("stance", &Stance::feature_names()));
        for i in 0..3 {
            names.push(indexed("cooldowns", i));
        }
        for i in 0..2 {
            names.extend(nested_names(&indexed("prev_positions", i), &Pos::feature_names()));
        }
        names
    }

    fn featurize(&self) -> Vec<f32> {
        let mut buffer = Vec::with_capacity(Self::num_feats());
        buffer.extend(self.pos.featurize());
        buffer.push(self.level as f32);
        buffer.push(if self.alive { 1.0 } else { 0.0 });
        buffer.extend(self.stance.featurize());
        buffer.extend(self.cooldowns);
        for p in &self.prev_positions {
            buffer.extend(p.featurize());
        }
        buffer
    }

    fn name() -> &'static str {
        "Hero"
    }
}

#[test]
fn test_num_feats() {
    assert_eq!(Pos::num_feats(), 2);
    assert_eq!(Stance::num_feats(), 4);
    assert_eq!(Hero::num_feats(), 15);
}

#[test]
fn test_feature_names() {
    assert_eq!(Pos::feature_names(), &["x", "y"]);
    assert_eq!(Stance::feature_names(), &["is_Calm", "is_Wrath", "is_Divinity", "is_None"]);
    assert_eq!(
        Hero::feature_names(),
        &[
            "pos.x",
            "pos.y",
            "level",
            "alive",
            "stance.is_Calm",
            "stance.is_Wrath",
            "stance.is_Divinity",
            "stance.is_None",
            "cooldowns.0",
            "cooldowns.1",
            "cooldowns.2",
            "prev_positions.0.x",
            "prev_positions.0.y",
            "prev_positions.1.x",
            "prev_positions.1.y",
        ]
    );
}

#[test]
fn test_featurize() {
    assert_eq!(Pos::featurize(&Pos { x: 1.0, y: 2.0 }), vec![1.0, 2.0]);
    assert_eq!(Stance::featurize(&Stance::Calm), vec![1.0, 0.0, 0.0, 0.0]);
    assert_eq!(Stance::featurize(&Stance::Wrath), vec![0.0, 1.0, 0.0, 0.0]);
    assert_eq!(Stance::featurize(&Stance::Divinity), vec![0.0, 0.0, 1.0, 0.0]);
    assert_eq!(
        Hero::featurize(&Hero {
            pos: Pos { x: 1.0, y: 2.0 },
            level: 3,
            alive: true,
            stance: Stance::Idle,
            cooldowns: [0.321, 1.0, 0.42],
            prev_positions: [Pos { x: 1.0, y: 3.0 }, Pos { x: 2.0, y: 4.0 }]
        }),
        vec![1.0, 2.0, 3.0, 1.0, 0.0, 0.0, 0.0, 1.0, 0.321, 1.0, 0.42, 1.0, 3.0, 2.0, 4.0]
    );
}

#[test]
fn test_name() {
    assert_eq!(Pos::name(), "Pos");
    assert_eq!(Hero::name(), "Hero");
}

#[test]
fn decimal_has_no_leading_zeros() {
    assert_eq!(decimal(0), "0");
    assert_eq!(decimal(7), "7");
    assert_eq!(decimal(10), "10");
    assert_eq!(decimal(4095), "4095");
    assert_eq!(decimal(usize::MAX), usize::MAX.to_string());
}

#[test]
fn names_are_joined_with_dots() {
    assert_eq!(nested("a", "b"), "a.b");
    assert_eq!(nested("", ""), ".");
    assert_eq!(indexed("cooldowns", 12), "cooldowns.12");
    assert!(nested_names("p", &vec![]).is_empty());
    assert!(flag_names(&vec![]).is_empty());
}
