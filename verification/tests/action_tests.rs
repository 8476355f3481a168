use raphael_rs::{Action, ActionMask, Combo, Condition, Effects};

#[test]
fn test_cp_cost() {
    let effects: Effects = Default::default();
    assert_eq!(25, Action::PrudentTouch.cp_cost(&effects, Condition::Good));
    assert_eq!(
        13,
        Action::PrudentTouch.cp_cost(&effects, Condition::Pliant)
    );
}

#[test]
fn test_durability_cost() {
    let effects_default: Effects = Default::default();
    let effects_waste_not: Effects = Effects::default().with_waste_not(1);
    assert_eq!(
        5,
        Action::PrudentSynthesis.durability_cost(&effects_default, Condition::Normal)
    );
    assert_eq!(
        3,
        Action::PrudentSynthesis.durability_cost(&effects_default, Condition::Sturdy)
    );
    assert_eq!(
        10,
        Action::BasicTouch.durability_cost(&effects_default, Condition::Normal)
    );
    assert_eq!(
        5,
        Action::BasicTouch.durability_cost(&effects_default, Condition::Sturdy)
    );
    assert_eq!(
        5,
        Action::BasicTouch.durability_cost(&effects_waste_not, Condition::Normal)
    );
    assert_eq!(
        3,
        Action::BasicTouch.durability_cost(&effects_waste_not, Condition::Sturdy)
    );
}

#[test]
fn test_action_tables() {
    assert_eq!(Action::BasicSynthesis.time_cost(), 3);
    assert_eq!(Action::Veneration.time_cost(), 2);
    assert_eq!(Action::Manipulation.base_cp_cost(), 96);
    assert_eq!(Action::Groundwork.base_durability_cost(), 20);
    assert_eq!(Action::CarefulSynthesis.base_progress_increase(), 180);
    assert_eq!(Action::CarefulSynthesis.progress_coefficient(81), 150);
    assert_eq!(Action::PreparatoryTouch.base_quality_increase(), 200);
    assert_eq!(Action::Reflect.required_combo(), Some(Combo::SynthesisBegin));
    assert_eq!(Action::BasicTouch.required_combo(), None);
    assert_eq!(Action::BasicTouch.to_combo(Combo::NoCombo), Combo::BasicTouch);
    assert_eq!(Action::ByregotsBlessing.display_name(), "Byregot's Blessing");
    assert_eq!(Action::AdvancedTouch.combo_cp_cost(Combo::StandardTouch), 18);
    assert_eq!(Action::AdvancedTouch.combo_cp_cost(Combo::BasicTouch), 46);
    for index in 0..31u8 {
        assert_eq!(Action::from_index(index).index(), index);
    }
}

#[test]
fn test_action_mask() {
    let mask = ActionMask::none()
        .add(Action::Observe)
        .add(Action::Groundwork)
        .add(Action::BasicTouch);
    assert!(mask.has(Action::Observe));
    assert!(!mask.has(Action::Reflect));
    assert_eq!(
        mask.actions(),
        vec![Action::BasicTouch, Action::Observe, Action::Groundwork]
    );
    assert_eq!(
        mask.remove(Action::Observe).actions(),
        vec![Action::BasicTouch, Action::Groundwork]
    );
    assert_eq!(mask.remove(Action::Reflect), mask);
    let other = ActionMask::none().add(Action::Reflect).add(Action::Observe);
    assert_eq!(
        mask.union(other).actions(),
        vec![
            Action::BasicTouch,
            Action::Observe,
            Action::Reflect,
            Action::Groundwork
        ]
    );
    assert_eq!(mask.intersection(other).actions(), vec![Action::Observe]);
    assert_eq!(ActionMask::all().actions().len(), 31);
    let level_10 = ActionMask::from_level(10);
    assert_eq!(
        level_10.actions(),
        vec![Action::BasicSynthesis, Action::BasicTouch, Action::MasterMend]
    );
    assert!(ActionMask::from_level(90).has(Action::TrainedFinesse));
    assert!(!ActionMask::from_level(90).has(Action::RefinedTouch));
}
