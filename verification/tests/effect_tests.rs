use raphael_rs::{
    Action, ActionError, ActionMask, Combo, Condition, Effects, Settings, SimulationState,
    SingleUse,
};

fn settings() -> Settings {
    Settings {
        max_cp: 250,
        max_durability: 60,
        max_progress: 2000,
        max_quality: 40000,
        base_progress: 100,
        base_quality: 100,
        job_level: 100,
        allowed_actions: ActionMask::all(),
        adversarial: false,
    }
}

fn legacy_settings() -> Settings {
    Settings {
        max_cp: 200,
        max_durability: 60,
        max_progress: 2000,
        max_quality: 40000,
        base_progress: 100,
        base_quality: 100,
        job_level: 90,
        allowed_actions: ActionMask::from_level(90),
        adversarial: false,
    }
}

fn with_effects(settings: &Settings, effects: Effects) -> SimulationState {
    SimulationState {
        effects,
        combo: Combo::NoCombo,
        ..SimulationState::new(settings)
    }
}

/// Returns the 4 primary stats of a state:
/// - Progress
/// - Quality
/// - Durability (used)
/// - CP (used)
fn primary_stats(state: &SimulationState, settings: &Settings) -> (u16, u16, i8, i16) {
    (
        state.progress,
        state.quality,
        settings.max_durability - state.durability,
        settings.max_cp - state.cp,
    )
}

#[test]
fn test_trained_perfection() {
    let settings = settings();
    let initial_state = SimulationState {
        effects: Effects::new().with_trained_perfection(SingleUse::Active),
        ..SimulationState::new(&settings)
    };
    // No durability cost when trained perfection is active
    let state = initial_state
        .use_action(Action::BasicSynthesis, Condition::Normal, &settings)
        .unwrap();
    assert_eq!(primary_stats(&state, &settings), (120, 0, 0, 0));
    assert_eq!(state.effects.trained_perfection(), SingleUse::Unavailable);
    // Trained Perfection effect doesn't wear off if durability cost is zero
    let state = initial_state
        .use_action(Action::Observe, Condition::Normal, &settings)
        .unwrap();
    assert_eq!(state.effects.trained_perfection(), SingleUse::Active);
}

#[test]
fn test_muscle_memory() {
    let settings = legacy_settings();
    let state = with_effects(&settings, Effects::new().with_muscle_memory(3));
    let next = state
        .use_action(Action::CarefulSynthesis, Condition::Normal, &settings)
        .unwrap();
    assert_eq!(next.progress, 360);
    assert_eq!(next.effects.muscle_memory(), 0);
    let next = state
        .use_action(Action::BasicTouch, Condition::Normal, &settings)
        .unwrap();
    assert_eq!(next.effects.muscle_memory(), 2);
}

#[test]
fn test_veneration() {
    let settings = legacy_settings();
    let state = with_effects(&settings, Effects::new().with_veneration(3));
    let next = state
        .use_action(Action::CarefulSynthesis, Condition::Normal, &settings)
        .unwrap();
    assert_eq!(next.progress, 270);
    assert_eq!(next.effects.veneration(), 2);
}

#[test]
fn test_muscle_memory_veneration() {
    let settings = legacy_settings();
    let state = with_effects(
        &settings,
        Effects::new().with_muscle_memory(3).with_veneration(3),
    );
    let next = state
        .use_action(Action::CarefulSynthesis, Condition::Normal, &settings)
        .unwrap();
    assert_eq!(next.progress, 450);
    assert_eq!(next.effects.muscle_memory(), 0);
    assert_eq!(next.effects.veneration(), 2);
}

#[test]
fn test_waste_not() {
    let settings = legacy_settings();
    let state = with_effects(&settings, Effects::new().with_waste_not(3));
    let next = state
        .use_action(Action::CarefulSynthesis, Condition::Normal, &settings)
        .unwrap();
    assert_eq!(next.durability, 55);
    assert_eq!(next.effects.waste_not(), 2);
    assert!(state
        .use_action(Action::PrudentTouch, Condition::Normal, &settings)
        .is_err());
    assert!(state
        .use_action(Action::PrudentSynthesis, Condition::Normal, &settings)
        .is_err());
}

#[test]
fn test_manipulation() {
    let settings = legacy_settings();
    let mut state = with_effects(&settings, Effects::new().with_manipulation(3));
    state.durability = 30;
    let next = state
        .use_action(Action::BasicSynthesis, Condition::Normal, &settings)
        .unwrap();
    assert_eq!(next.durability, 25);
    assert_eq!(next.effects.manipulation(), 2);
    let next = state
        .use_action(Action::Observe, Condition::Normal, &settings)
        .unwrap();
    assert_eq!(next.durability, 35);
    assert_eq!(next.effects.manipulation(), 2);
    let next = state
        .use_action(Action::Manipulation, Condition::Normal, &settings)
        .unwrap();
    assert_eq!(next.durability, 30);
    assert_eq!(next.effects.manipulation(), 8);
    let next = state
        .use_action(Action::MasterMend, Condition::Normal, &settings)
        .unwrap();
    assert_eq!(next.durability, 60);
    assert_eq!(next.effects.manipulation(), 2);
}

#[test]
fn test_great_strides() {
    let settings = legacy_settings();
    let state = with_effects(&settings, Effects::new().with_great_strides(3));
    let next = state
        .use_action(Action::BasicTouch, Condition::Normal, &settings)
        .unwrap();
    assert_eq!(next.quality, 200);
    assert_eq!(next.effects.great_strides(), 0);
    let next = state
        .use_action(Action::BasicSynthesis, Condition::Normal, &settings)
        .unwrap();
    assert_eq!(next.effects.great_strides(), 2);
}

#[test]
fn test_innovation() {
    let settings = legacy_settings();
    let state = with_effects(&settings, Effects::new().with_innovation(3));
    let next = state
        .use_action(Action::BasicTouch, Condition::Normal, &settings)
        .unwrap();
    assert_eq!(next.quality, 150);
    assert_eq!(next.effects.innovation(), 2);
}

#[test]
fn test_great_strides_innovation() {
    let settings = legacy_settings();
    let state = with_effects(
        &settings,
        Effects::new().with_great_strides(3).with_innovation(3),
    );
    let next = state
        .use_action(Action::BasicTouch, Condition::Normal, &settings)
        .unwrap();
    assert_eq!(next.quality, 250);
    assert_eq!(next.effects.great_strides(), 0);
    assert_eq!(next.effects.innovation(), 2);
}

#[test]
fn test_inner_quiet() {
    let settings = legacy_settings();
    let state = with_effects(&settings, Effects::new().with_inner_quiet(4));
    let next = state
        .use_action(Action::BasicTouch, Condition::Normal, &settings)
        .unwrap();
    assert_eq!(next.quality, 140);
    assert_eq!(next.effects.inner_quiet(), 5);
}

#[test]
fn test_innovation_inner_quiet() {
    let settings = legacy_settings();
    let state = with_effects(
        &settings,
        Effects::new().with_innovation(3).with_inner_quiet(4),
    );
    let next = state
        .use_action(Action::BasicTouch, Condition::Normal, &settings)
        .unwrap();
    assert_eq!(next.quality, 210);
    assert_eq!(next.effects.innovation(), 2);
    assert_eq!(next.effects.inner_quiet(), 5);
}

#[test]
fn test_errors_in_order() {
    let mut settings = settings();
    settings.job_level = 10;
    settings.allowed_actions = ActionMask::all().remove(Action::BasicTouch);
    let state = SimulationState::new(&settings);
    assert_eq!(
        state.use_action(Action::Groundwork, Condition::Normal, &settings),
        Err(ActionError::NotUnlocked)
    );
    assert_eq!(
        state.use_action(Action::BasicTouch, Condition::Normal, &settings),
        Err(ActionError::ActionDisabled)
    );
    settings.job_level = 100;
    let spent = SimulationState {
        durability: 0,
        ..state
    };
    assert_eq!(
        spent.use_action(Action::BasicSynthesis, Condition::Normal, &settings),
        Err(ActionError::NoDurability)
    );
    let done = SimulationState {
        progress: 2000,
        ..state
    };
    assert_eq!(
        done.use_action(Action::BasicSynthesis, Condition::Normal, &settings),
        Err(ActionError::NoDurability)
    );
    let poor = SimulationState { cp: 6, ..state };
    assert_eq!(
        poor.use_action(Action::Observe, Condition::Normal, &settings),
        Err(ActionError::InsufficientCp)
    );
    let late = SimulationState {
        combo: Combo::NoCombo,
        ..state
    };
    assert_eq!(
        late.use_action(Action::Reflect, Condition::Normal, &settings),
        Err(ActionError::ComboMissing)
    );
    assert_eq!(
        late.use_action(Action::RefinedTouch, Condition::Normal, &settings),
        Err(ActionError::ComboMissing)
    );
    assert_eq!(
        state.use_action(Action::TrainedFinesse, Condition::Normal, &settings),
        Err(ActionError::ActionDisabled)
    );
    assert_eq!(
        state.use_action(Action::ByregotsBlessing, Condition::Normal, &settings),
        Err(ActionError::ActionDisabled)
    );
    assert_eq!(
        state.use_action(Action::IntensiveSynthesis, Condition::Normal, &settings),
        Err(ActionError::ActionDisabled)
    );
    let used = SimulationState {
        effects: Effects::new()
            .with_heart_and_soul(SingleUse::Unavailable)
            .with_trained_perfection(SingleUse::Active)
            .with_quick_innovation_available(false),
        ..state
    };
    assert_eq!(
        used.use_action(Action::HeartAndSoul, Condition::Normal, &settings),
        Err(ActionError::SingleUseConsumed)
    );
    assert_eq!(
        used.use_action(Action::TrainedPerfection, Condition::Normal, &settings),
        Err(ActionError::SingleUseConsumed)
    );
    assert_eq!(
        used.use_action(Action::QuickInnovation, Condition::Normal, &settings),
        Err(ActionError::SingleUseConsumed)
    );
}

#[test]
fn test_cp_exactly_enough() {
    let settings = settings();
    let state = SimulationState {
        cp: 7,
        ..SimulationState::new(&settings)
    };
    let next = state
        .use_action(Action::Observe, Condition::Normal, &settings)
        .unwrap();
    assert_eq!(next.cp, 0);
    let next = next
        .use_action(Action::BasicSynthesis, Condition::Normal, &settings)
        .unwrap();
    assert_eq!(next.cp, 0);
    assert_eq!(next.progress, 120);
}

#[test]
fn test_durability_five_cost_ten() {
    let settings = settings();
    let state = SimulationState {
        durability: 5,
        combo: Combo::NoCombo,
        ..SimulationState::new(&settings)
    };
    assert_eq!(
        state.use_action(Action::BasicSynthesis, Condition::Normal, &settings),
        Err(ActionError::NoDurability)
    );
    assert_eq!(
        state.use_action(Action::BasicTouch, Condition::Normal, &settings),
        Err(ActionError::NoDurability)
    );
    let guarded = SimulationState {
        effects: Effects::new().with_waste_not(2),
        ..state
    };
    let next = guarded
        .use_action(Action::BasicSynthesis, Condition::Normal, &settings)
        .unwrap();
    assert_eq!(next.durability, 0);
    assert_eq!(next.effects.waste_not(), 2);
    assert!(next.is_final(&settings));
    let perfect = SimulationState {
        effects: Effects::new().with_trained_perfection(SingleUse::Active),
        ..state
    };
    let next = perfect
        .use_action(Action::BasicSynthesis, Condition::Normal, &settings)
        .unwrap();
    assert_eq!(next.durability, 5);
}

#[test]
fn test_progress_saturates() {
    let mut settings = settings();
    settings.base_progress = 60000;
    settings.max_progress = 65000;
    let state = SimulationState::new(&settings);
    let next = state
        .use_action(Action::MuscleMemory, Condition::Malleable, &settings)
        .unwrap();
    assert_eq!(next.progress, 65000);
    assert!(next.is_final(&settings));
    settings.base_quality = 60000;
    settings.max_quality = 65535;
    let state = SimulationState::new(&settings);
    let next = state
        .use_action(Action::Reflect, Condition::Excellent, &settings)
        .unwrap();
    assert_eq!(next.quality, 65535);
}

#[test]
fn test_conditions() {
    let settings = settings();
    let state = with_effects(&settings, Effects::new());
    let next = state
        .use_action(Action::BasicTouch, Condition::Pliant, &settings)
        .unwrap();
    assert_eq!(settings.max_cp - next.cp, 9);
    let next = state
        .use_action(Action::BasicTouch, Condition::Sturdy, &settings)
        .unwrap();
    assert_eq!(next.durability, 55);
    let next = state
        .use_action(Action::BasicSynthesis, Condition::Malleable, &settings)
        .unwrap();
    assert_eq!(next.progress, 180);
    let next = state
        .use_action(Action::BasicTouch, Condition::Good, &settings)
        .unwrap();
    assert_eq!(next.quality, 150);
    let next = state
        .use_action(Action::BasicTouch, Condition::Excellent, &settings)
        .unwrap();
    assert_eq!(next.quality, 400);
    let next = state
        .use_action(Action::BasicTouch, Condition::Poor, &settings)
        .unwrap();
    assert_eq!(next.quality, 50);
    let next = state
        .use_action(Action::PreciseTouch, Condition::Good, &settings)
        .unwrap();
    assert_eq!(next.quality, 225);
    assert_eq!(next.effects.inner_quiet(), 2);
    assert_eq!(next.effects.heart_and_soul(), SingleUse::Available);
}

#[test]
fn test_byregots_blessing() {
    let settings = settings();
    let state = with_effects(&settings, Effects::new().with_inner_quiet(5));
    let next = state
        .use_action(Action::ByregotsBlessing, Condition::Normal, &settings)
        .unwrap();
    // (100% + 5 * 20%) * (100% + 5 * 10%) of a base of 100
    assert_eq!(next.quality, 300);
    assert_eq!(next.effects.inner_quiet(), 0);
}

#[test]
fn test_inner_quiet_stops_at_ten() {
    let settings = settings();
    let state = with_effects(&settings, Effects::new().with_inner_quiet(9));
    let next = state
        .use_action(Action::PreparatoryTouch, Condition::Normal, &settings)
        .unwrap();
    assert_eq!(next.effects.inner_quiet(), 10);
    let next = next
        .use_action(Action::TrainedFinesse, Condition::Normal, &settings)
        .unwrap();
    assert_eq!(next.effects.inner_quiet(), 10);
    assert_eq!(next.durability, 40);
}

#[test]
fn test_heart_and_soul_and_quick_innovation_take_no_step() {
    let settings = settings();
    let state = with_effects(&settings, Effects::new().with_veneration(2));
    let next = state
        .use_action(Action::HeartAndSoul, Condition::Normal, &settings)
        .unwrap();
    assert_eq!(next.effects.veneration(), 2);
    assert_eq!(next.effects.heart_and_soul(), SingleUse::Active);
    let next = next
        .use_action(Action::IntensiveSynthesis, Condition::Normal, &settings)
        .unwrap();
    assert_eq!(next.progress, 600);
    assert_eq!(next.effects.heart_and_soul(), SingleUse::Unavailable);
    assert_eq!(next.effects.veneration(), 1);
    let next = next
        .use_action(Action::QuickInnovation, Condition::Normal, &settings)
        .unwrap();
    assert_eq!(next.effects.innovation(), 1);
    assert!(!next.effects.quick_innovation_available());
    assert_eq!(next.effects.veneration(), 1);
}

#[test]
fn test_combo_prices() {
    let settings = settings();
    let state = with_effects(&settings, Effects::new());
    let basic = state
        .use_action(Action::BasicTouch, Condition::Normal, &settings)
        .unwrap();
    assert_eq!(basic.combo, Combo::BasicTouch);
    let standard = basic
        .use_action(Action::StandardTouch, Condition::Normal, &settings)
        .unwrap();
    assert_eq!(basic.cp - standard.cp, 18);
    assert_eq!(standard.combo, Combo::StandardTouch);
    let advanced = standard
        .use_action(Action::AdvancedTouch, Condition::Normal, &settings)
        .unwrap();
    assert_eq!(standard.cp - advanced.cp, 18);
    assert_eq!(advanced.combo, Combo::NoCombo);
    let plain = state
        .use_action(Action::StandardTouch, Condition::Normal, &settings)
        .unwrap();
    assert_eq!(state.cp - plain.cp, 32);
    assert_eq!(plain.combo, Combo::NoCombo);
    let observed = state
        .use_action(Action::Observe, Condition::Normal, &settings)
        .unwrap()
        .use_action(Action::AdvancedTouch, Condition::Normal, &settings)
        .unwrap();
    assert_eq!(state.cp - observed.cp, 7 + 18);
}

#[test]
fn test_adversarial_quality() {
    let mut settings = settings();
    settings.adversarial = true;
    let state = SimulationState::new(&settings);
    assert_eq!(state.effects.guard(), 1);
    // the first step is guarded
    let state = state
        .use_action(Action::BasicTouch, Condition::Normal, &settings)
        .unwrap();
    assert_eq!((state.quality, state.guaranteed_quality()), (100, 100));
    assert_eq!(state.effects.guard(), 0);
    // 110 under Normal, 55 under Poor: half of the step is at risk
    let state = state
        .use_action(Action::BasicTouch, Condition::Normal, &settings)
        .unwrap();
    assert_eq!((state.quality, state.guaranteed_quality()), (210, 155));
    // 120 under Normal, 60 under Poor: either this step is hit or the one before
    let state = state
        .use_action(Action::BasicTouch, Condition::Normal, &settings)
        .unwrap();
    assert_eq!(state.guaranteed_quality(), 155 + 60 + 55);
    assert_eq!(state.quality, 155 + 120);
    // a step without quality settles what was at risk
    let state = state
        .use_action(Action::Observe, Condition::Normal, &settings)
        .unwrap();
    assert_eq!((state.quality, state.guaranteed_quality()), (270, 270));
}

#[test]
fn test_from_macro() {
    let settings = settings();
    let state = SimulationState::from_macro(
        &settings,
        &[Action::MuscleMemory, Action::Veneration, Action::Groundwork],
    )
    .unwrap();
    // 300 + 360 * 2.5
    assert_eq!(state.progress, 1200);
    assert_eq!(state.durability, 30);
    assert_eq!(state.cp, 250 - 6 - 18 - 18);
    assert_eq!(state.effects.veneration(), 3);
    assert_eq!(
        SimulationState::from_macro(&settings, &[Action::BasicTouch, Action::MuscleMemory]),
        Err(ActionError::ComboMissing)
    );
    let (state, errors) = SimulationState::from_macro_continue_on_error(
        &settings,
        &[Action::BasicTouch, Action::MuscleMemory, Action::BasicSynthesis],
    );
    assert_eq!(errors, vec![Ok(()), Err(ActionError::ComboMissing), Ok(())]);
    assert_eq!((state.quality, state.progress), (100, 120));
}

#[test]
fn test_tick_down() {
    let mut effects = Effects::new()
        .with_inner_quiet(7)
        .with_waste_not(8)
        .with_innovation(1)
        .with_veneration(0)
        .with_great_strides(3)
        .with_muscle_memory(5)
        .with_manipulation(2)
        .with_guard(1)
        .with_trained_perfection(SingleUse::Active);
    effects.tick_down();
    assert_eq!(effects.inner_quiet(), 7);
    assert_eq!(effects.waste_not(), 7);
    assert_eq!(effects.innovation(), 0);
    assert_eq!(effects.veneration(), 0);
    assert_eq!(effects.great_strides(), 2);
    assert_eq!(effects.muscle_memory(), 4);
    assert_eq!(effects.manipulation(), 1);
    assert_eq!(effects.guard(), 0);
    assert_eq!(effects.trained_perfection(), SingleUse::Active);
    assert_eq!(effects.heart_and_soul(), SingleUse::Available);
    assert!(effects.quick_innovation_available());
}

#[test]
fn test_effects_word() {
    assert_eq!(Effects::new().bits(), 0x0a80_0000);
    assert_eq!(Effects::default(), Effects::new());
    assert_eq!(Effects::new().with_inner_quiet(10).bits(), 0x0a80_000a);
    assert_eq!(Effects::new().with_guard(1).bits(), 0x1a80_0000);
    let effects = Effects::new()
        .with_waste_not(8)
        .with_manipulation(8)
        .with_heart_and_soul(SingleUse::Active);
    assert_eq!(effects.with_waste_not(0).with_manipulation(0).bits(), 0x0c80_0000);
    let mut changed = effects;
    changed.set_veneration(4);
    changed.set_quick_innovation_available(false);
    assert_eq!(changed.veneration(), 4);
    assert_eq!(changed.waste_not(), 8);
    assert_eq!(changed.manipulation(), 8);
    assert_eq!(changed.heart_and_soul(), SingleUse::Active);
    assert!(!changed.quick_innovation_available());
    assert_ne!(changed, effects);
}

#[test]
fn test_use_action_overdrawing() {
    let settings = settings();
    let state = SimulationState {
        durability: 5,
        combo: Combo::NoCombo,
        ..SimulationState::new(&settings)
    };
    // a craft refuses what costs more than is left; the count of steps goes on
    assert_eq!(
        state.use_action(Action::BasicSynthesis, Condition::Normal, &settings),
        Err(ActionError::NoDurability)
    );
    let next = state
        .use_action_overdrawing(Action::BasicSynthesis, Condition::Normal, &settings)
        .unwrap();
    assert_eq!(next.durability, -5);
    assert_eq!(next.progress, 120);
    assert!(next.is_final(&settings));
    // Groundwork at half strength: 360 / 2
    let low = SimulationState {
        durability: 10,
        ..state
    };
    let next = low
        .use_action_overdrawing(Action::Groundwork, Condition::Normal, &settings)
        .unwrap();
    assert_eq!(next.durability, -10);
    assert_eq!(next.progress, 180);
    // and at full strength where the durability is there
    let enough = SimulationState {
        durability: 20,
        ..state
    };
    assert_eq!(
        enough.use_action_overdrawing(Action::Groundwork, Condition::Normal, &settings),
        enough.use_action(Action::Groundwork, Condition::Normal, &settings)
    );
    // a craft that is over goes no further either way
    let over = SimulationState {
        durability: 0,
        ..state
    };
    assert_eq!(
        over.use_action_overdrawing(Action::BasicSynthesis, Condition::Normal, &settings),
        Err(ActionError::NoDurability)
    );
}
