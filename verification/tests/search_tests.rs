use raphael_rs::search_queue::{SearchQueue, SearchScore};
use raphael_rs::{
    Action, ActionCombo, ActionMask, AtomicFlag, Effects, MacroSolver, ParetoFront, Settings,
    SimulationState, SolverConfig,
};
use std::cell::RefCell;

fn settings() -> Settings {
    Settings {
        max_cp: 100,
        max_durability: 30,
        max_progress: 360,
        max_quality: 800,
        base_progress: 100,
        base_quality: 100,
        job_level: 90,
        allowed_actions: ActionMask::from_level(90),
        adversarial: false,
    }
}

fn score(quality: u16, duration: u8, steps: u8) -> SearchScore {
    SearchScore::new(quality, duration, steps, &settings())
}

#[test]
fn test_search_score() {
    // quality counts up to the target
    assert_eq!(score(900, 3, 1).quality, 800);
    // more quality first
    assert!(score(500, 30, 10).key(false) > score(499, 3, 1).key(false));
    // then less time, then fewer steps
    assert!(score(500, 5, 3).key(true) > score(500, 6, 2).key(true));
    assert!(score(500, 5, 2).key(true) > score(500, 5, 3).key(true));
    // or fewer steps, then less time
    assert!(score(500, 6, 2).key(false) > score(500, 5, 3).key(false));
    assert!(score(500, 5, 3).key(false) > score(500, 6, 3).key(false));
    assert_eq!(score(1, 255, 255).key(true), 65536);
}

#[test]
fn test_search_queue_order() {
    let settings = settings();
    let state = SimulationState::new(&settings);
    let mut queue = SearchQueue::new(score(100, 255, 255), false);
    assert!(queue.pop().is_none());
    let touch = ActionCombo::Single(Action::BasicTouch);
    let combo = ActionCombo::AdvancedTouch;
    queue.push(state, score(300, 3, 1), touch, 0);
    queue.push(state, score(500, 9, 3), combo, 0);
    queue.push(state, score(400, 3, 1), touch, 0);
    // does not pass the minimum
    queue.push(state, score(100, 3, 1), touch, 0);
    queue.push(state, score(50, 3, 1), touch, 0);
    let (_, first, first_id) = queue.pop().unwrap();
    assert_eq!((first.quality, first_id), (500, 1));
    assert_eq!(queue.steps(first_id), 3);
    queue.push(state, score(450, 12, 4), touch, first_id);
    let (_, second, second_id) = queue.pop().unwrap();
    assert_eq!((second.quality, second_id), (450, 2));
    assert_eq!(queue.steps(second_id), 4);
    assert_eq!(
        queue.backtrack(second_id),
        vec![
            Action::BasicTouch,
            Action::StandardTouch,
            Action::AdvancedTouch,
            Action::BasicTouch
        ]
    );
    assert_eq!(queue.backtrack(0), vec![]);
    // what is left and does not pass the raised minimum never leaves
    queue.update_min_score(score(400, 0, 0));
    assert!(queue.pop().is_none());
    assert!(queue.pop().is_none());
    assert_eq!(queue.nodes_visited(), 2);
}

#[test]
fn test_search_queue_same_rank() {
    let settings = settings();
    let mut queue = SearchQueue::new(score(0, 255, 255), true);
    let mut state = SimulationState::new(&settings);
    for cp in 0..5 {
        state.cp = cp;
        queue.push(
            state,
            score(200, 3, 1),
            ActionCombo::Single(Action::Observe),
            0,
        );
    }
    // of one rank the last that came leaves first
    for cp in (0..5).rev() {
        let (state, _, _) = queue.pop().unwrap();
        assert_eq!(state.cp, cp);
    }
    assert!(queue.pop().is_none());
}

#[test]
fn test_pareto_front_insert() {
    let settings = settings();
    let state = SimulationState {
        progress: 100,
        quality: 200,
        ..SimulationState::new(&settings)
    };
    let mut front = ParetoFront::new();
    assert!(front.insert(&state));
    // the same again, and what is behind in both
    assert!(!front.insert(&state));
    assert!(!front.insert(&SimulationState {
        progress: 90,
        quality: 190,
        ..state
    }));
    // behind in one and level in the other: entered, and then held
    assert!(front.insert(&SimulationState {
        progress: 90,
        quality: 200,
        ..state
    }));
    assert!(!front.insert(&SimulationState {
        progress: 90,
        quality: 200,
        ..state
    }));
    // ahead in one
    assert!(front.insert(&SimulationState {
        progress: 101,
        quality: 100,
        ..state
    }));
    assert!(!front.insert(&SimulationState {
        progress: 100,
        quality: 99,
        ..state
    }));
    assert!(front.insert(&SimulationState {
        progress: 101,
        quality: 99,
        ..state
    }));
    // another state altogether
    assert!(front.insert(&SimulationState { cp: 99, ..state }));
    assert!(front.insert(&SimulationState {
        effects: Effects::new().with_veneration(1),
        ..state
    }));
    assert!(front.insert(&SimulationState {
        unreliable_quality: 10,
        ..state
    }));
}

#[test]
fn test_solve_with_callbacks() {
    let settings = Settings {
        allowed_actions: ActionMask::from_level(90)
            .remove(Action::TrainedEye)
            .remove(Action::HeartAndSoul)
            .remove(Action::QuickInnovation),
        ..settings()
    };
    let state = SimulationState::new(&settings);
    let config = SolverConfig {
        quality_target: 800,
        backload_progress: false,
        adversarial: false,
        minimize_steps: false,
    };
    let mut solver = MacroSolver::new(settings, config, false, AtomicFlag::new());
    let found: RefCell<Vec<Vec<Action>>> = RefCell::new(Vec::new());
    let reports: RefCell<Vec<usize>> = RefCell::new(Vec::new());
    let actions = solver
        .solve_with(
            state,
            &|nodes: usize| reports.borrow_mut().push(nodes),
            &|actions: &[Action]| found.borrow_mut().push(actions.to_vec()),
        )
        .unwrap();
    let found = found.into_inner();
    assert!(!found.is_empty());
    // each solution that is reported finishes the craft, and none is worse than the
    // one before it
    let mut last_quality = 0;
    for solution in &found {
        let end = SimulationState::from_macro(&settings, solution).unwrap();
        assert!(end.progress >= settings.max_progress);
        assert!(end.quality >= last_quality);
        last_quality = end.quality;
    }
    // the one that is returned is the last that was reported
    assert_eq!(found.last().unwrap(), &actions);
    assert_eq!(solver.solve(state).unwrap(), actions);
}
