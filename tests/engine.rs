use dice_engine::action::Action;
use dice_engine::dice::pick;
use dice_engine::dice::Dice;
use dice_engine::dice::Vantage;
use dice_engine::error::RollError;
use dice_engine::modifier::apply_modifier;
use dice_engine::modifier::combine;
use dice_engine::modifier::Modifier;
use dice_engine::modifier::ModifierType;
use dice_engine::roller::Roller;

fn d(count: u32, sides: u8) -> Dice {
    Dice::new(count, sides).unwrap()
}

fn table() -> Vec<(i128, String)> {
    vec![
        (0, "miss".to_string()),
        (10, "hit".to_string()),
        (20, "critical".to_string()),
    ]
}

#[test]
fn dice_new_accepts_valid_shapes() {
    let dice = Dice::new(2, 6).unwrap();
    assert_eq!(dice.count(), 2);
    assert_eq!(dice.sides(), 6);
    assert!(Dice::new(1, 2).is_ok());
}

#[test]
fn dice_new_rejects_zero_count() {
    assert!(matches!(Dice::new(0, 6), Err(RollError::InvalidDice)));
}

#[test]
fn dice_new_rejects_too_few_sides() {
    assert!(matches!(Dice::new(1, 1), Err(RollError::InvalidDice)));
    assert!(matches!(Dice::new(3, 0), Err(RollError::InvalidDice)));
}

#[test]
fn roll_once_stays_in_range() {
    let mut roller = Roller::seeded(7);
    let dice = d(3, 6);
    for _ in 0..500 {
        let r = dice.roll_once(&mut roller);
        assert!(r >= 3 && r <= 18);
    }
}

#[test]
fn random_draws_vary_and_cover_faces() {
    let mut roller = Roller::seeded(11);
    let dice = d(1, 6);
    let mut seen = [false; 7];
    for _ in 0..600 {
        let r = dice.roll_once(&mut roller) as usize;
        assert!((1..=6).contains(&r));
        seen[r] = true;
    }
    assert!(seen[1..].iter().all(|s| *s));
}

#[test]
fn seeded_rollers_repeat() {
    let mut a = Roller::seeded(42);
    let mut b = Roller::seeded(42);
    let dice = d(4, 20);
    for _ in 0..50 {
        assert_eq!(dice.roll_once(&mut a), dice.roll_once(&mut b));
    }
}

#[test]
fn roll_once_sums_independent_draws() {
    let mut roller = Roller::scripted(vec![1, 6]);
    assert_eq!(d(2, 6).roll_once(&mut roller), 7);
}

#[test]
fn scripted_draws_are_fitted_to_the_die() {
    let mut roller = Roller::scripted(vec![0, 30, 5]);
    assert_eq!(d(1, 20).roll_once(&mut roller), 1);
    assert_eq!(d(1, 20).roll_once(&mut roller), 20);
    assert_eq!(d(1, 20).roll_once(&mut roller), 5);
}

#[test]
fn scenario_plain_roll_with_ability_modifier() {
    let mut roller = Roller::scripted(vec![15]);
    let m = Modifier::new(3, ModifierType::Ability);
    let r = d(1, 20).roll(Vantage::Plain, m, &mut roller);
    assert_eq!(r.base_value(), 15);
    assert_eq!(r.total(), 18);
    assert_eq!(r.applied_modifiers(), &vec![Modifier::new(3, ModifierType::Ability)]);
}

#[test]
fn scenario_advantage_keeps_higher() {
    let mut roller = Roller::scripted(vec![7, 14]);
    let m = Modifier::new(0, ModifierType::Situational);
    let r = d(1, 20).roll(Vantage::Advantage, m, &mut roller);
    assert_eq!(r.base_value(), 14);
}

#[test]
fn scenario_disadvantage_keeps_lower() {
    let mut roller = Roller::scripted(vec![7, 14]);
    let m = Modifier::new(0, ModifierType::Situational);
    let r = d(1, 20).roll(Vantage::Disadvantage, m, &mut roller);
    assert_eq!(r.base_value(), 7);
}

#[test]
fn advantage_rolls_each_die_twice_in_full() {
    let mut roller = Roller::scripted(vec![1, 2, 6, 6]);
    assert_eq!(d(2, 6).vantage_roll(Vantage::Advantage, &mut roller), 12);
    let mut roller = Roller::scripted(vec![1, 2, 6, 6]);
    assert_eq!(d(2, 6).vantage_roll(Vantage::Disadvantage, &mut roller), 3);
}

#[test]
fn modifier_is_added_once_after_selection() {
    let mut roller = Roller::scripted(vec![9, 4]);
    let m = Modifier::new(5, ModifierType::Proficiency);
    let r = d(1, 20).roll(Vantage::Advantage, m, &mut roller);
    assert_eq!(r.base_value(), 9);
    assert_eq!(r.total(), 14);
}

#[test]
fn vantage_bounds_hold_for_random_rolls() {
    let mut roller = Roller::seeded(3);
    let dice = d(2, 8);
    for _ in 0..300 {
        let r = dice.vantage_roll(Vantage::Advantage, &mut roller);
        assert!(r >= 2 && r <= 16);
    }
}

#[test]
fn pick_by_vantage() {
    assert_eq!(pick(Vantage::Plain, 7, 14), 7);
    assert_eq!(pick(Vantage::Advantage, 7, 14), 14);
    assert_eq!(pick(Vantage::Advantage, 14, 7), 14);
    assert_eq!(pick(Vantage::Disadvantage, 7, 14), 7);
    assert_eq!(pick(Vantage::Disadvantage, 14, 7), 7);
    assert_eq!(pick(Vantage::Advantage, 9, 9), 9);
    assert_eq!(pick(Vantage::Disadvantage, 9, 9), 9);
}

#[test]
fn modifier_roll_is_plain() {
    let mut roller = Roller::scripted(vec![4, 19]);
    let m = Modifier::new(-2, ModifierType::Item);
    let r = d(1, 20).modifier_roll(m, &mut roller);
    assert_eq!(r.base_value(), 4);
    assert_eq!(r.total(), 2);
}

#[test]
fn modifier_accessors() {
    let m = Modifier::new(-4, ModifierType::Item);
    assert_eq!(m.value(), -4);
    assert_eq!(m.modifier_type(), ModifierType::Item);
}

#[test]
fn apply_modifier_adds_value() {
    let r = apply_modifier(10, Modifier::new(-3, ModifierType::Situational));
    assert_eq!(r.base_value(), 10);
    assert_eq!(r.total(), 7);
    assert_eq!(r.applied_modifiers().len(), 1);
}

#[test]
fn combine_empty() {
    let (sum, provenance) = combine(&vec![]);
    assert_eq!(sum, 0);
    assert!(provenance.is_empty());
}

#[test]
fn combine_keeps_order() {
    let m1 = Modifier::new(2, ModifierType::Ability);
    let m2 = Modifier::new(-5, ModifierType::Situational);
    let (sum, provenance) = combine(&vec![m1, m2]);
    assert_eq!(sum, -3);
    assert_eq!(provenance, vec![m1, m2]);
}

#[test]
fn combine_twice_gives_same_result() {
    let ms = vec![
        Modifier::new(1, ModifierType::Ability),
        Modifier::new(2, ModifierType::Proficiency),
        Modifier::new(i32::MAX, ModifierType::Item),
    ];
    assert_eq!(combine(&ms), combine(&ms));
    assert_eq!(combine(&ms).0, 3 + i32::MAX as i128);
}

#[test]
fn combine_split_agrees_with_whole() {
    let a = vec![Modifier::new(4, ModifierType::Ability)];
    let b = vec![
        Modifier::new(-1, ModifierType::Item),
        Modifier::new(i32::MIN, ModifierType::Situational),
    ];
    let mut ab = a.clone();
    ab.extend(b.iter().copied());
    let (sa, mut pa) = combine(&a);
    let (sb, pb) = combine(&b);
    pa.extend(pb);
    assert_eq!(combine(&ab), (sa + sb, pa));
}

#[test]
fn scenario_two_dice_plain_action() {
    let action = Action::new(vec![d(1, 6), d(1, 4)], Vantage::Plain, table());
    let mut roller = Roller::scripted(vec![4, 2]);
    let r = action.resolve(&vec![], &mut roller).unwrap();
    assert_eq!(r.base_value(), 6);
    assert_eq!(r.total(), 6);
    assert!(r.applied_modifiers().is_empty());
}

#[test]
fn action_with_advantage_and_modifiers() {
    let action = Action::new(vec![d(1, 8), d(1, 4)], Vantage::Advantage, table());
    let mut roller = Roller::scripted(vec![3, 8, 4, 1]);
    let ms = vec![
        Modifier::new(2, ModifierType::Ability),
        Modifier::new(1, ModifierType::Proficiency),
    ];
    let r = action.resolve(&ms, &mut roller).unwrap();
    assert_eq!(r.base_value(), 12);
    assert_eq!(r.total(), 15);
    assert_eq!(r.applied_modifiers(), &ms);
}

#[test]
fn action_random_resolution_in_range() {
    let action = Action::new(vec![d(2, 6), d(1, 4)], Vantage::Disadvantage, table());
    let mut roller = Roller::seeded(5);
    for _ in 0..200 {
        let r = action.resolve(&vec![], &mut roller).unwrap();
        assert!(r.base_value() >= 3 && r.base_value() <= 16);
        assert_eq!(r.total(), r.base_value() as i128);
    }
}

#[test]
fn action_without_dice_fails() {
    let action = Action::new(vec![], Vantage::Plain, table());
    let mut roller = Roller::new();
    assert!(matches!(
        action.resolve(&vec![], &mut roller),
        Err(RollError::EmptyDiceSpec)
    ));
}

#[test]
fn scenario_threshold_lookup() {
    let action = Action::new(vec![d(1, 20)], Vantage::Plain, table());
    assert_eq!(action.describe(15).unwrap(), "hit");
    assert_eq!(action.describe(25).unwrap(), "critical");
    assert!(matches!(action.describe(-1), Err(RollError::NoMatchingThreshold)));
}

#[test]
fn catch_all_threshold_matches_everything() {
    let mut ts = table();
    ts.insert(0, (i128::MIN, "fumble".to_string()));
    let action = Action::new(vec![d(1, 20)], Vantage::Plain, ts);
    assert_eq!(action.describe(-1).unwrap(), "fumble");
    assert_eq!(action.describe(i128::MIN).unwrap(), "fumble");
    assert_eq!(action.describe(0).unwrap(), "miss");
}

#[test]
fn threshold_boundaries_are_inclusive() {
    let action = Action::new(vec![d(1, 20)], Vantage::Plain, table());
    assert_eq!(action.describe(0).unwrap(), "miss");
    assert_eq!(action.describe(10).unwrap(), "hit");
    assert_eq!(action.describe(20).unwrap(), "critical");
    assert_eq!(action.describe(9).unwrap(), "miss");
}

#[test]
fn threshold_tie_takes_latest_declared() {
    let ts = vec![
        (0, "miss".to_string()),
        (10, "graze".to_string()),
        (10, "hit".to_string()),
    ];
    let action = Action::new(vec![d(1, 20)], Vantage::Plain, ts);
    assert_eq!(action.describe(12).unwrap(), "hit");
    assert_eq!(action.select_threshold(12), Some(2));
    assert_eq!(action.select_threshold(-5), None);
}

#[test]
fn threshold_selection_is_monotonic() {
    let action = Action::new(vec![d(1, 20)], Vantage::Plain, table());
    let mut last: i128 = i128::MIN;
    for total in -5..30 {
        if let Some(i) = action.select_threshold(total) {
            let m = action.descriptions()[i].0;
            assert!(m >= last);
            last = m;
        }
    }
}

#[test]
fn action_accessors() {
    let action = Action::new(vec![d(1, 6), d(2, 4)], Vantage::Advantage, table());
    assert_eq!(action.dice().len(), 2);
    assert_eq!(action.vantage(), Vantage::Advantage);
    assert_eq!(action.descriptions().len(), 3);
}
