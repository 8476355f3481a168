use raphael_rs::quality_upper_bound_solver::waste_not_min_cp;
use raphael_rs::{
    Action, ActionMask, AtomicFlag, FinishSolver, MacroSolver, QualityUpperBoundSolver, Settings,
    SimulationState, SolverConfig, SolverError, StepLowerBoundSolver,
};

fn config(quality_target: u16) -> SolverConfig {
    SolverConfig {
        quality_target,
        backload_progress: false,
        adversarial: false,
        minimize_steps: false,
    }
}

fn quality_of(settings: &Settings, actions: &[Action]) -> u16 {
    let state = SimulationState::from_macro(settings, actions).unwrap();
    assert!(state.progress >= settings.max_progress);
    state.guaranteed_quality()
}

fn small_settings() -> Settings {
    Settings {
        max_cp: 100,
        max_durability: 30,
        max_progress: 360,
        max_quality: 800,
        base_progress: 100,
        base_quality: 100,
        job_level: 90,
        allowed_actions: ActionMask::from_level(90)
            .remove(Action::TrainedEye)
            .remove(Action::HeartAndSoul)
            .remove(Action::QuickInnovation),
        adversarial: false,
    }
}

#[test]
fn test_macro_solver_small() {
    let settings = small_settings();
    let state = SimulationState::new(&settings);
    let mut solver = MacroSolver::new(settings, config(800), false, AtomicFlag::new());
    let actions = solver.solve(state).unwrap();
    assert!(!actions.is_empty());
    let quality = quality_of(&settings, &actions);
    // Reflect on 10 of the 30 durability and Groundwork on the rest is one way
    let simple = quality_of(&settings, &[Action::Reflect, Action::Groundwork]);
    assert_eq!(simple, 300);
    assert!(quality >= simple);
    // no quality above the bound of the start
    let mut bound_solver = QualityUpperBoundSolver::new(settings, false, false, AtomicFlag::new());
    let bound = bound_solver.quality_upper_bound(state).unwrap();
    assert!(quality <= bound);
    assert!(solver.nodes_visited() > 0);
}

#[test]
fn test_macro_solver_quality_target() {
    let settings = small_settings();
    let state = SimulationState::new(&settings);
    let mut solver = MacroSolver::new(settings, config(0), false, AtomicFlag::new());
    let actions = solver.solve(state).unwrap();
    // with nothing to gain from quality the shortest way to fill progress wins
    assert_eq!(actions, vec![Action::Groundwork]);
    let mut solver = MacroSolver::new(
        settings,
        SolverConfig {
            minimize_steps: true,
            ..config(0)
        },
        false,
        AtomicFlag::new(),
    );
    assert_eq!(solver.solve(state).unwrap().len(), 1);
}

#[test]
fn test_macro_solver_backload_progress() {
    let settings = small_settings();
    let state = SimulationState::new(&settings);
    let mut solver = MacroSolver::new(
        settings,
        SolverConfig {
            backload_progress: true,
            ..config(800)
        },
        false,
        AtomicFlag::new(),
    );
    let actions = solver.solve(state).unwrap();
    let quality = quality_of(&settings, &actions);
    assert!(quality > 0);
    // once there is progress, no action adds quality
    let mut state = SimulationState::new(&settings);
    let mut progress_seen = false;
    for action in actions {
        let next = state
            .use_action(action, raphael_rs::Condition::Normal, &settings)
            .unwrap();
        if progress_seen {
            assert_eq!(next.quality, state.quality);
        }
        progress_seen = progress_seen || next.progress > 0;
        state = next;
    }
}

#[test]
fn test_macro_solver_adversarial() {
    let settings = small_settings();
    let state = SimulationState::new(&settings);
    let mut solver = MacroSolver::new(
        settings,
        SolverConfig {
            adversarial: true,
            ..config(800)
        },
        false,
        AtomicFlag::new(),
    );
    let actions = solver.solve(state).unwrap();
    let adversarial = Settings {
        adversarial: true,
        ..settings
    };
    let guaranteed = quality_of(&adversarial, &actions);
    let mut plain = MacroSolver::new(settings, config(800), false, AtomicFlag::new());
    let best = quality_of(&settings, &plain.solve(state).unwrap());
    assert!(guaranteed > 0);
    assert!(guaranteed <= best);
}

#[test]
fn test_macro_solver_no_solution() {
    let settings = Settings {
        max_progress: 5000,
        ..small_settings()
    };
    let state = SimulationState::new(&settings);
    let mut solver = MacroSolver::new(settings, config(800), false, AtomicFlag::new());
    assert_eq!(solver.solve(state), Err(SolverError::NoSolution));
    let mut finish_solver = FinishSolver::new(settings, AtomicFlag::new());
    assert_eq!(finish_solver.can_finish(&state), Some(false));
}

#[test]
fn test_macro_solver_interrupted() {
    let settings = small_settings();
    let state = SimulationState::new(&settings);
    let flag = AtomicFlag::new();
    let mut solver = MacroSolver::new(settings, config(800), false, flag.share());
    flag.set();
    assert_eq!(solver.solve(state), Err(SolverError::Interrupted));
    let mut bound_solver = QualityUpperBoundSolver::new(settings, false, false, flag.share());
    assert_eq!(bound_solver.quality_upper_bound(state), None);
    let mut step_solver = StepLowerBoundSolver::new(settings, flag.share());
    assert_eq!(step_solver.step_lower_bound(state), None);
    let mut finish_solver = FinishSolver::new(settings, flag.share());
    assert_eq!(finish_solver.can_finish(&state), None);
    assert_eq!(
        finish_solver.finishing_actions(&state),
        Err(SolverError::Interrupted)
    );
    flag.clear();
    assert!(solver.solve(state).is_ok());
    assert!(bound_solver.quality_upper_bound(state).is_some());
    assert!(step_solver.step_lower_bound(state).is_some());
    assert_eq!(finish_solver.can_finish(&state), Some(true));
    assert!(finish_solver.finishing_actions(&state).unwrap().is_some());
}

#[test]
fn test_finish_solver() {
    let settings = small_settings();
    let mut solver = FinishSolver::new(settings, AtomicFlag::new());
    let state = SimulationState::new(&settings);
    assert_eq!(solver.can_finish(&state), Some(true));
    // 10 durability and no CP: one Basic Synthesis, 120 progress
    let last = SimulationState {
        cp: 0,
        durability: 10,
        progress: 240,
        combo: raphael_rs::Combo::NoCombo,
        ..state
    };
    assert_eq!(solver.can_finish(&last), Some(true));
    let short = SimulationState {
        progress: 239,
        ..last
    };
    assert_eq!(solver.can_finish(&short), Some(false));
    // 7 CP buy a Careful Synthesis
    let richer = SimulationState { cp: 7, ..short };
    assert_eq!(solver.can_finish(&richer), Some(true));
}

#[test]
fn test_finishing_actions() {
    let settings = small_settings();
    let mut solver = FinishSolver::new(settings, AtomicFlag::new());
    let state = SimulationState::new(&settings);
    let actions = solver.finishing_actions(&state).unwrap().unwrap();
    let end = SimulationState::from_macro(&settings, &actions).unwrap();
    assert!(end.progress >= settings.max_progress);
    // the first move of the list after which the craft can still be finished, each time
    assert_eq!(
        actions,
        vec![
            Action::BasicSynthesis,
            Action::BasicSynthesis,
            Action::BasicSynthesis
        ]
    );
    // a craft that is done needs nothing more
    let done = SimulationState {
        progress: 360,
        ..state
    };
    assert_eq!(solver.finishing_actions(&done), Ok(Some(vec![])));
    // no way without durability, and none where progress is out of reach
    let worn = SimulationState {
        durability: 0,
        ..state
    };
    assert_eq!(solver.finishing_actions(&worn), Ok(None));
    let far = Settings {
        max_progress: 5000,
        ..settings
    };
    assert_eq!(
        FinishSolver::new(far, AtomicFlag::new()).finishing_actions(&SimulationState::new(&far)),
        Ok(None)
    );
    // against the adversary the same way leads there
    let adversarial = Settings {
        adversarial: true,
        ..settings
    };
    let actions = FinishSolver::new(adversarial, AtomicFlag::new())
        .finishing_actions(&SimulationState::new(&adversarial))
        .unwrap()
        .unwrap();
    assert!(
        SimulationState::from_macro(&adversarial, &actions)
            .unwrap()
            .progress
            >= 360
    );
}

#[test]
fn test_quality_upper_bound() {
    let settings = small_settings();
    let mut solver = QualityUpperBoundSolver::new(settings, false, false, AtomicFlag::new());
    let state = SimulationState::new(&settings);
    let bound = solver.quality_upper_bound(state).unwrap();
    assert!(bound <= settings.max_quality);
    // the bound of a state is not below what any of its children reaches
    for action in settings.allowed_actions.actions() {
        if let Ok(child) = state.use_action(action, raphael_rs::Condition::Normal, &settings) {
            if child.is_final(&settings) {
                continue;
            }
            let child_bound = solver.quality_upper_bound(child).unwrap();
            assert!(child_bound <= bound, "{:?}", action);
        }
    }
    // without CP and with 10 durability only a synthesis is left
    let last = SimulationState {
        cp: 0,
        durability: 10,
        progress: 240,
        combo: raphael_rs::Combo::NoCombo,
        ..state
    };
    assert_eq!(solver.quality_upper_bound(last), Some(0));
    // progress out of reach: nothing
    let lost = SimulationState {
        progress: 0,
        ..last
    };
    assert_eq!(solver.quality_upper_bound(lost), Some(0));
}

#[test]
fn test_macro_solver_mid_tier_recipe() {
    // Ra'Kaznar Lapidary Hammer, 4462 Craftsmanship, 4391 Control, with 230 of the
    // 569 CP so that the search ends within the time that a test has
    let settings = Settings {
        max_cp: 230,
        max_durability: 80,
        max_progress: 6600,
        max_quality: 10000,
        base_progress: 237,
        base_quality: 245,
        job_level: 100,
        allowed_actions: ActionMask::from_level(100)
            .remove(Action::TrainedEye)
            .remove(Action::HeartAndSoul)
            .remove(Action::QuickInnovation),
        adversarial: false,
    };
    let state = SimulationState::new(&settings);
    let mut solver = MacroSolver::new(settings, config(10000), false, AtomicFlag::new());
    let actions = solver.solve(state).unwrap();
    assert!(!actions.is_empty());
    let end = SimulationState::from_macro(&settings, &actions).unwrap();
    assert!(end.progress >= 6600);
    assert_eq!(end.quality, 1689);
    let simple = quality_of(
        &settings,
        &[
            Action::MuscleMemory,
            Action::Veneration,
            Action::WasteNot2,
            Action::Groundwork,
            Action::Groundwork,
            Action::Groundwork,
            Action::BasicTouch,
            Action::Groundwork,
            Action::Groundwork,
        ],
    );
    assert_eq!(simple, 245);
    assert!(end.quality >= simple);
    let mut bound_solver = QualityUpperBoundSolver::new(settings, false, false, AtomicFlag::new());
    assert_eq!(bound_solver.quality_upper_bound(state), Some(2297));
}

#[test]
fn test_waste_not_min_cp() {
    // 5 durability for 12 CP: Waste Not has to save 5 units, one Groundwork and three
    // Basic Syntheses do: 56 + (18 + 24) + 12 - 12
    assert_eq!(waste_not_min_cp(56, 4, 12), 98);
    // for 14 CP it has to save 4, which four Basic Syntheses do
    assert_eq!(waste_not_min_cp(56, 4, 14), 42);
    // for 7 CP Waste Not II has to save 14: six Groundworks and two Basic Syntheses
    assert_eq!(waste_not_min_cp(98, 8, 7), 325);
    // for 5 CP Waste Not would have to save 12 units, more than it lasts for
    assert_eq!(waste_not_min_cp(56, 4, 5), i16::MAX);
}

#[test]
fn test_macro_solver_settings() {
    let settings = small_settings();
    let solver = MacroSolver::new(
        settings,
        SolverConfig {
            quality_target: 300,
            backload_progress: false,
            adversarial: true,
            minimize_steps: false,
        },
        false,
        AtomicFlag::new(),
    );
    // the target of the config is the maximum where it is lower, and its adversary
    // is the adversary
    let effective = solver.simulator_settings();
    assert_eq!(
        effective,
        Settings {
            max_quality: 300,
            adversarial: true,
            ..settings
        }
    );
    assert_eq!(SimulationState::new(&effective).effects.guard(), 1);
    assert_eq!(SimulationState::new(&settings).effects.guard(), 0);
    let solver = MacroSolver::new(settings, config(900), false, AtomicFlag::new());
    assert_eq!(solver.simulator_settings(), settings);
}

#[test]
fn test_step_lower_bound_counts_the_last_of_the_durability() {
    // 10 durability and 30 CP: after a touch on 5 and 25 of them one action is left
    // to the count of steps, on less durability than it costs
    let settings = Settings {
        max_cp: 30,
        max_durability: 10,
        max_progress: 120,
        max_quality: 100,
        ..small_settings()
    };
    let state = SimulationState::from_macro(&settings, &[Action::PrudentTouch]).unwrap();
    assert_eq!(state.cp, 5);
    assert_eq!(state.durability, 5);
    assert_eq!(state.quality, 100);
    assert_eq!(
        StepLowerBoundSolver::new(settings, AtomicFlag::new()).step_lower_bound(state),
        Some(1)
    );
    // the craft itself cannot be finished from there
    assert_eq!(
        FinishSolver::new(settings, AtomicFlag::new()).can_finish(&state),
        Some(false)
    );
    let mut solver = MacroSolver::new(settings, config(100), false, AtomicFlag::new());
    assert_eq!(solver.solve(state), Err(SolverError::NoSolution));
}
