//! The moves of the solvers: single actions, and short runs of actions that a solver
//! takes as one.
use vstd::prelude::*;
use crate::actions::Action;
use crate::actions::Combo;
use crate::actions::Condition;
use crate::settings::Settings;
use crate::state::outcome_view;
use crate::state::ActionError;
use crate::state::SimulationState;
use crate::state::StateData;

verus! {

/// What a solver knows beside the settings of the craft.
#[derive(Clone, Copy, Debug, PartialEq, Eq, Structural)]
pub struct SolverSettings {
    pub simulator_settings: Settings,
    /// Progress comes last: once there is progress, no quality is sought any more.
    pub backload_progress: bool,
    /// Lets the solver cut branches by rules of thumb that can lose the best solution.
    pub allow_unsound_branch_pruning: bool,
}

/// A move of a solver.
#[derive(Clone, Copy, Debug, PartialEq, Eq, Structural)]
pub enum ActionCombo {
    /// Heart and Soul, then Tricks of the Trade.
    TricksOfTheTrade,
    /// Heart and Soul, then Intensive Synthesis.
    IntensiveSynthesis,
    /// Heart and Soul, then Precise Touch.
    PreciseTouch,
    /// Basic Touch, then Standard Touch.
    StandardTouch,
    /// Basic Touch, Standard Touch, then Advanced Touch.
    AdvancedTouch,
    /// Observe, then Advanced Touch.
    FocusedTouch,
    /// Basic Touch, then Refined Touch.
    RefinedTouch,
    Single(Action),
}

impl ActionCombo {
    /// The actions of the move, in the order in which they are used.
    pub open spec fn spec_actions(self) -> Seq<Action> {
        match self {
            ActionCombo::TricksOfTheTrade => seq![Action::HeartAndSoul, Action::TricksOfTheTrade],
            ActionCombo::IntensiveSynthesis => seq![
                Action::HeartAndSoul,
                Action::IntensiveSynthesis,
            ],
            ActionCombo::PreciseTouch => seq![Action::HeartAndSoul, Action::PreciseTouch],
            ActionCombo::StandardTouch => seq![Action::BasicTouch, Action::StandardTouch],
            ActionCombo::AdvancedTouch => seq![
                Action::BasicTouch,
                Action::StandardTouch,
                Action::AdvancedTouch,
            ],
            ActionCombo::FocusedTouch => seq![Action::Observe, Action::AdvancedTouch],
            ActionCombo::RefinedTouch => seq![Action::BasicTouch, Action::RefinedTouch],
            ActionCombo::Single(action) => seq![action],
        }
    }

    /// The actions of the move, in the order in which they are used.
    pub fn actions(self) -> (r: Vec<Action>)
        ensures
            r@ == self.spec_actions(),
    {
        let r = match self {
            ActionCombo::TricksOfTheTrade => vec![Action::HeartAndSoul, Action::TricksOfTheTrade],
            ActionCombo::IntensiveSynthesis => vec![
                Action::HeartAndSoul,
                Action::IntensiveSynthesis,
            ],
            ActionCombo::PreciseTouch => vec![Action::HeartAndSoul, Action::PreciseTouch],
            ActionCombo::StandardTouch => vec![Action::BasicTouch, Action::StandardTouch],
            ActionCombo::AdvancedTouch => vec![
                Action::BasicTouch,
                Action::StandardTouch,
                Action::AdvancedTouch,
            ],
            ActionCombo::FocusedTouch => vec![Action::Observe, Action::AdvancedTouch],
            ActionCombo::RefinedTouch => vec![Action::BasicTouch, Action::RefinedTouch],
            ActionCombo::Single(action) => vec![action],
        };
        assert(r@ =~= self.spec_actions());
        r
    }

    /// The action at a place of the move.
    pub fn action_at(self, index: u8) -> (r: Action)
        requires
            index < self.spec_actions().len(),
        ensures
            r == self.spec_actions()[index as int],
    {
        match self {
            ActionCombo::TricksOfTheTrade => if index == 0 {
                Action::HeartAndSoul
            } else {
                Action::TricksOfTheTrade
            },
            ActionCombo::IntensiveSynthesis => if index == 0 {
                Action::HeartAndSoul
            } else {
                Action::IntensiveSynthesis
            },
            ActionCombo::PreciseTouch => if index == 0 {
                Action::HeartAndSoul
            } else {
                Action::PreciseTouch
            },
            ActionCombo::StandardTouch => if index == 0 {
                Action::BasicTouch
            } else {
                Action::StandardTouch
            },
            ActionCombo::AdvancedTouch => if index == 0 {
                Action::BasicTouch
            } else if index == 1 {
                Action::StandardTouch
            } else {
                Action::AdvancedTouch
            },
            ActionCombo::FocusedTouch => if index == 0 {
                Action::Observe
            } else {
                Action::AdvancedTouch
            },
            ActionCombo::RefinedTouch => if index == 0 {
                Action::BasicTouch
            } else {
                Action::RefinedTouch
            },
            ActionCombo::Single(action) => action,
        }
    }

    /// The number of actions of the move.
    pub fn steps(self) -> (r: u8)
        ensures
            r == self.spec_actions().len(),
            1 <= r <= 3,
    {
        match self {
            ActionCombo::AdvancedTouch => 3,
            ActionCombo::Single(_) => 1,
            _ => 2,
        }
    }

    /// The seconds that the actions of the move take together.
    pub open spec fn spec_duration(self) -> int {
        total_time(self.spec_actions())
    }

    /// The seconds that the actions of the move take together.
    pub fn duration(self) -> (r: u8)
        ensures
            r == self.spec_duration(),
            2 <= r <= 9,
    {
        let actions = self.actions();
        let mut total: u8 = 0;
        let mut i: usize = 0;
        assert(actions@.take(0) =~= Seq::<Action>::empty());
        while i < actions.len()
            invariant
                i <= actions.len() <= 3,
                total == total_time(actions@.take(i as int)),
                total <= 3 * i,
                total >= 2 * i,
            decreases actions.len() - i,
        {
            assert(actions@.take(i + 1).drop_last() =~= actions@.take(i as int));
            total = total + actions[i].time_cost();
            i = i + 1;
        }
        assert(actions@.take(actions@.len() as int) =~= actions@);
        total
    }
}

/// The seconds that a run of actions takes.
pub open spec fn total_time(actions: Seq<Action>) -> int
    decreases actions.len(),
{
    if actions.len() == 0 {
        0
    } else {
        total_time(actions.drop_last()) + actions.last().time_cost()
    }
}

pub open spec fn spec_full_search_actions() -> Seq<ActionCombo> {
    seq![
        ActionCombo::AdvancedTouch,
        ActionCombo::TricksOfTheTrade,
        ActionCombo::IntensiveSynthesis,
        ActionCombo::PreciseTouch,
        ActionCombo::StandardTouch,
        ActionCombo::FocusedTouch,
        ActionCombo::RefinedTouch,
        ActionCombo::Single(Action::BasicSynthesis),
        ActionCombo::Single(Action::Veneration),
        ActionCombo::Single(Action::MuscleMemory),
        ActionCombo::Single(Action::CarefulSynthesis),
        ActionCombo::Single(Action::Groundwork),
        ActionCombo::Single(Action::PrudentSynthesis),
        ActionCombo::Single(Action::BasicTouch),
        ActionCombo::Single(Action::StandardTouch),
        ActionCombo::Single(Action::GreatStrides),
        ActionCombo::Single(Action::Innovation),
        ActionCombo::Single(Action::ByregotsBlessing),
        ActionCombo::Single(Action::PrudentTouch),
        ActionCombo::Single(Action::Reflect),
        ActionCombo::Single(Action::PreparatoryTouch),
        ActionCombo::Single(Action::AdvancedTouch),
        ActionCombo::Single(Action::TrainedFinesse),
        ActionCombo::Single(Action::TrainedEye),
        ActionCombo::Single(Action::QuickInnovation),
        ActionCombo::Single(Action::MasterMend),
        ActionCombo::Single(Action::WasteNot),
        ActionCombo::Single(Action::WasteNot2),
        ActionCombo::Single(Action::Manipulation),
        ActionCombo::Single(Action::ImmaculateMend),
        ActionCombo::Single(Action::TrainedPerfection),
        ActionCombo::Single(Action::DelicateSynthesis),
        ActionCombo::Single(Action::TricksOfTheTrade),
    ]
}

/// The moves that a search with quality still to gain tries, in the order in which it tries them.
pub fn full_search_actions() -> (r: Vec<ActionCombo>)
    ensures
        r@ == spec_full_search_actions(),
{
    let r = vec![
        ActionCombo::AdvancedTouch,
        ActionCombo::TricksOfTheTrade,
        ActionCombo::IntensiveSynthesis,
        ActionCombo::PreciseTouch,
        ActionCombo::StandardTouch,
        ActionCombo::FocusedTouch,
        ActionCombo::RefinedTouch,
        ActionCombo::Single(Action::BasicSynthesis),
        ActionCombo::Single(Action::Veneration),
        ActionCombo::Single(Action::MuscleMemory),
        ActionCombo::Single(Action::CarefulSynthesis),
        ActionCombo::Single(Action::Groundwork),
        ActionCombo::Single(Action::PrudentSynthesis),
        ActionCombo::Single(Action::BasicTouch),
        ActionCombo::Single(Action::StandardTouch),
        ActionCombo::Single(Action::GreatStrides),
        ActionCombo::Single(Action::Innovation),
        ActionCombo::Single(Action::ByregotsBlessing),
        ActionCombo::Single(Action::PrudentTouch),
        ActionCombo::Single(Action::Reflect),
        ActionCombo::Single(Action::PreparatoryTouch),
        ActionCombo::Single(Action::AdvancedTouch),
        ActionCombo::Single(Action::TrainedFinesse),
        ActionCombo::Single(Action::TrainedEye),
        ActionCombo::Single(Action::QuickInnovation),
        ActionCombo::Single(Action::MasterMend),
        ActionCombo::Single(Action::WasteNot),
        ActionCombo::Single(Action::WasteNot2),
        ActionCombo::Single(Action::Manipulation),
        ActionCombo::Single(Action::ImmaculateMend),
        ActionCombo::Single(Action::TrainedPerfection),
        ActionCombo::Single(Action::DelicateSynthesis),
        ActionCombo::Single(Action::TricksOfTheTrade),
    ];
    assert(r@ =~= spec_full_search_actions());
    r
}

pub open spec fn spec_progress_only_search_actions() -> Seq<ActionCombo> {
    seq![
        ActionCombo::IntensiveSynthesis,
        ActionCombo::TricksOfTheTrade,
        ActionCombo::Single(Action::BasicSynthesis),
        ActionCombo::Single(Action::Veneration),
        ActionCombo::Single(Action::MuscleMemory),
        ActionCombo::Single(Action::CarefulSynthesis),
        ActionCombo::Single(Action::Groundwork),
        ActionCombo::Single(Action::PrudentSynthesis),
        ActionCombo::Single(Action::MasterMend),
        ActionCombo::Single(Action::WasteNot),
        ActionCombo::Single(Action::WasteNot2),
        ActionCombo::Single(Action::Manipulation),
        ActionCombo::Single(Action::ImmaculateMend),
        ActionCombo::Single(Action::TrainedPerfection),
        ActionCombo::Single(Action::TricksOfTheTrade),
    ]
}

/// The moves that a search tries once only progress is left to gain.
pub fn progress_only_search_actions() -> (r: Vec<ActionCombo>)
    ensures
        r@ == spec_progress_only_search_actions(),
{
    let r = vec![
        ActionCombo::IntensiveSynthesis,
        ActionCombo::TricksOfTheTrade,
        ActionCombo::Single(Action::BasicSynthesis),
        ActionCombo::Single(Action::Veneration),
        ActionCombo::Single(Action::MuscleMemory),
        ActionCombo::Single(Action::CarefulSynthesis),
        ActionCombo::Single(Action::Groundwork),
        ActionCombo::Single(Action::PrudentSynthesis),
        ActionCombo::Single(Action::MasterMend),
        ActionCombo::Single(Action::WasteNot),
        ActionCombo::Single(Action::WasteNot2),
        ActionCombo::Single(Action::Manipulation),
        ActionCombo::Single(Action::ImmaculateMend),
        ActionCombo::Single(Action::TrainedPerfection),
        ActionCombo::Single(Action::TricksOfTheTrade),
    ];
    assert(r@ =~= spec_progress_only_search_actions());
    r
}

pub open spec fn spec_quality_only_search_actions() -> Seq<ActionCombo> {
    seq![
        ActionCombo::TricksOfTheTrade,
        ActionCombo::PreciseTouch,
        ActionCombo::StandardTouch,
        ActionCombo::AdvancedTouch,
        ActionCombo::FocusedTouch,
        ActionCombo::RefinedTouch,
        ActionCombo::Single(Action::BasicTouch),
        ActionCombo::Single(Action::StandardTouch),
        ActionCombo::Single(Action::GreatStrides),
        ActionCombo::Single(Action::Innovation),
        ActionCombo::Single(Action::ByregotsBlessing),
        ActionCombo::Single(Action::PrudentTouch),
        ActionCombo::Single(Action::Reflect),
        ActionCombo::Single(Action::PreparatoryTouch),
        ActionCombo::Single(Action::AdvancedTouch),
        ActionCombo::Single(Action::TrainedFinesse),
        ActionCombo::Single(Action::TrainedEye),
        ActionCombo::Single(Action::QuickInnovation),
        ActionCombo::Single(Action::MasterMend),
        ActionCombo::Single(Action::WasteNot),
        ActionCombo::Single(Action::WasteNot2),
        ActionCombo::Single(Action::Manipulation),
        ActionCombo::Single(Action::ImmaculateMend),
        ActionCombo::Single(Action::TrainedPerfection),
        ActionCombo::Single(Action::TricksOfTheTrade),
    ]
}

/// The moves that a search tries where only quality is sought.
pub fn quality_only_search_actions() -> (r: Vec<ActionCombo>)
    ensures
        r@ == spec_quality_only_search_actions(),
{
    let r = vec![
        ActionCombo::TricksOfTheTrade,
        ActionCombo::PreciseTouch,
        ActionCombo::StandardTouch,
        ActionCombo::AdvancedTouch,
        ActionCombo::FocusedTouch,
        ActionCombo::RefinedTouch,
        ActionCombo::Single(Action::BasicTouch),
        ActionCombo::Single(Action::StandardTouch),
        ActionCombo::Single(Action::GreatStrides),
        ActionCombo::Single(Action::Innovation),
        ActionCombo::Single(Action::ByregotsBlessing),
        ActionCombo::Single(Action::PrudentTouch),
        ActionCombo::Single(Action::Reflect),
        ActionCombo::Single(Action::PreparatoryTouch),
        ActionCombo::Single(Action::AdvancedTouch),
        ActionCombo::Single(Action::TrainedFinesse),
        ActionCombo::Single(Action::TrainedEye),
        ActionCombo::Single(Action::QuickInnovation),
        ActionCombo::Single(Action::MasterMend),
        ActionCombo::Single(Action::WasteNot),
        ActionCombo::Single(Action::WasteNot2),
        ActionCombo::Single(Action::Manipulation),
        ActionCombo::Single(Action::ImmaculateMend),
        ActionCombo::Single(Action::TrainedPerfection),
        ActionCombo::Single(Action::TricksOfTheTrade),
    ];
    assert(r@ =~= spec_quality_only_search_actions());
    r
}

/// The actions of a run of moves, in the order in which they are used.
pub open spec fn unfolded(moves: Seq<ActionCombo>) -> Seq<Action>
    decreases moves.len(),
{
    if moves.len() == 0 {
        Seq::empty()
    } else {
        moves[0].spec_actions() + unfolded(moves.skip(1))
    }
}

/// What the backloading rule and the rules of thumb say of the state.
pub open spec fn spec_is_progress_only_state(settings: SolverSettings, state: StateData) -> bool {
    ||| settings.backload_progress && state.progress != 0
    ||| settings.allow_unsound_branch_pruning && settings.backload_progress
        && state.effects.veneration != 0
    ||| settings.allow_unsound_branch_pruning && state.quality != 0 && state.effects.inner_quiet
        == 0
}

/// Whether only progress is left to gain from the state: under backloading, as soon
/// as there is progress; under the rules of thumb also while Veneration runs under
/// backloading, and once quality was gained and Inner Quiet is gone, which is what
/// Byregot's Blessing leaves.
pub fn is_progress_only_state(settings: &SolverSettings, state: &SimulationState) -> (r: bool)
    ensures
        r == spec_is_progress_only_state(*settings, state@),
{
    if settings.backload_progress && state.progress != 0 {
        return true;
    }
    if settings.allow_unsound_branch_pruning {
        if settings.backload_progress && state.effects.veneration() != 0 {
            return true;
        }
        if state.quality != 0 && state.effects.inner_quiet() == 0 {
            // Byregot's Blessing was used
            return true;
        }
    }
    false
}

/// The state without what only quality needs: what was at risk is taken off the
/// quality, and Inner Quiet, Innovation, Great Strides, the guard and Quick
/// Innovation are gone.
pub open spec fn without_quality_effects(state: StateData) -> StateData {
    StateData {
        quality: state.guaranteed_quality() as u16,
        unreliable_quality: 0,
        effects: crate::effects::EffectsData {
            inner_quiet: 0,
            innovation: 0,
            great_strides: 0,
            guard: 0,
            quick_innovation_available: false,
            ..state.effects
        },
        ..state
    }
}

/// The state in which a move leaves the search: stripped of what only quality needs
/// where only progress is left to gain, and with an empty combo slot.
pub open spec fn settled(settings: SolverSettings, state: StateData) -> StateData {
    let kept = if spec_is_progress_only_state(settings, state) {
        without_quality_effects(state)
    } else {
        state
    };
    StateData { combo: Combo::NoCombo, ..kept }
}

/// What a move makes of a state: the actions of the move are used in their order
/// under a Normal condition, and what they lead to is settled; or the error of the
/// first action that cannot be used.
pub open spec fn spec_use_action_combo(
    settings: SolverSettings,
    state: StateData,
    action_combo: ActionCombo,
) -> Result<StateData, ActionError> {
    match state.run(action_combo.spec_actions(), settings.simulator_settings) {
        Ok(next) => Ok(settled(settings, next)),
        Err(error) => Err(error),
    }
}

/// Uses the actions of a move on the state, one after the other under a Normal
/// condition, and settles the state that they lead to.
pub fn use_action_combo(
    settings: &SolverSettings,
    state: SimulationState,
    action_combo: ActionCombo,
) -> (r: Result<SimulationState, ActionError>)
    ensures
        outcome_view(r) == spec_use_action_combo(*settings, state@, action_combo),
{
    let ghost actions = action_combo.spec_actions();
    let count = action_combo.steps();
    let mut current = state;
    let mut i: u8 = 0;
    assert(actions.skip(0) == actions);
    while i < count
        invariant
            i <= count,
            count == actions.len(),
            actions == action_combo.spec_actions(),
            state@.run(actions, settings.simulator_settings) == current@.run(
                actions.skip(i as int),
                settings.simulator_settings,
            ),
        decreases count - i,
    {
        proof {
            assert(actions.skip(i as int)[0] == actions[i as int]);
            assert(actions.skip(i as int).skip(1) == actions.skip(i + 1));
        }
        match current.use_action(
            action_combo.action_at(i),
            Condition::Normal,
            &settings.simulator_settings,
        ) {
            Ok(next) => {
                current = next;
            },
            Err(error) => {
                assert(state@.run(actions, settings.simulator_settings) == Err::<
                    StateData,
                    ActionError,
                >(error));
                return Err(error);
            },
        }
        i = i + 1;
    }
    assert(state@.run(actions, settings.simulator_settings) == Ok::<StateData, ActionError>(
        current@,
    ));
    if is_progress_only_state(settings, &current) {
        // strip all quality-only data
        current.quality = current.guaranteed_quality();
        current.unreliable_quality = 0;
        current.effects.set_inner_quiet(0);
        current.effects.set_innovation(0);
        current.effects.set_great_strides(0);
        current.effects.set_guard(0);
        current.effects.set_quick_innovation_available(false);
    }
    current.combo = Combo::NoCombo;
    Ok(current)
}

/// Uses the actions on the state, each under a Normal condition on the state that the
/// one before it left.
pub fn run_actions(state: SimulationState, actions: &Vec<Action>, settings: &Settings) -> (r:
    Result<SimulationState, ActionError>)
    ensures
        outcome_view(r) == state@.run(actions@, *settings),
{
    let mut current = state;
    let mut i: usize = 0;
    assert(actions@.skip(0) == actions@);
    while i < actions.len()
        invariant
            i <= actions.len(),
            state@.run(actions@, *settings) == current@.run(actions@.skip(i as int), *settings),
        decreases actions.len() - i,
    {
        proof {
            assert(actions@.skip(i as int)[0] == actions@[i as int]);
            assert(actions@.skip(i as int).skip(1) == actions@.skip(i + 1));
        }
        match current.use_action(actions[i], Condition::Normal, settings) {
            Ok(next) => {
                current = next;
            },
            Err(error) => {
                assert(state@.run(actions@, *settings) == Err::<StateData, ActionError>(error));
                return Err(error);
            },
        }
        i = i + 1;
    }
    Ok(current)
}

/// A copy of a list of actions with the actions of a move at its end.
pub fn extended(actions: &Vec<Action>, action: ActionCombo) -> (r: Vec<Action>)
    ensures
        r@ == actions@ + action.spec_actions(),
{
    let mut copy: Vec<Action> = Vec::new();
    let mut i: usize = 0;
    while i < actions.len()
        invariant
            i <= actions.len(),
            copy@ == actions@.take(i as int),
        decreases actions.len() - i,
    {
        copy.push(actions[i]);
        i = i + 1;
        assert(copy@ =~= actions@.take(i as int));
    }
    assert(actions@.take(actions@.len() as int) =~= actions@);
    let tail = action.actions();
    let mut j: usize = 0;
    while j < tail.len()
        invariant
            j <= tail.len(),
            copy@ == actions@ + tail@.take(j as int),
        decreases tail.len() - j,
    {
        copy.push(tail[j]);
        j = j + 1;
        assert(copy@ =~= actions@ + tail@.take(j as int));
    }
    assert(tail@.take(tail@.len() as int) =~= tail@);
    copy
}

} // verus!
