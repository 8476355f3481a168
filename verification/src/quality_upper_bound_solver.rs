//! An upper bound on the quality that a craft can still reach while it fills progress.
use vstd::prelude::*;
use crate::actions::Action;
use crate::actions::Combo;
use crate::combos::spec_full_search_actions;
use crate::combos::spec_is_progress_only_state;
use crate::combos::spec_progress_only_search_actions;
use crate::combos::spec_use_action_combo;
use crate::combos::ActionCombo;
use crate::combos::SolverSettings;
use crate::effects::Effects;
use crate::effects::EffectsData;
use crate::effects::SingleUse;
use crate::combos::full_search_actions;
use crate::combos::is_progress_only_state;
use crate::combos::progress_only_search_actions;
use crate::combos::use_action_combo;
use crate::interrupt::AtomicFlag;
use crate::memo::Table;
use crate::pareto::merged;
use crate::pareto::shifted;
use crate::pareto::ParetoFrontBuilder;
use crate::pareto::ParetoFrontId;
use crate::pareto::ParetoValue;
use crate::state::SimulationState;
use crate::step_lower_bound_solver::front_bound;
use crate::step_lower_bound_solver::lemma_digits;
use crate::step_lower_bound_solver::query_front;
use crate::settings::Settings;
use crate::state::min_int;
use crate::state::StateData;
use crate::transitions::lemma_run_spends;
use crate::transitions::lemma_run_wears;
use crate::step_lower_bound_solver::is_max_front;

verus! {

/// The durability that the simulation of a reduced state starts a move with. It is
/// more than a move can use up, so that durability never ends a move early; what a
/// move uses of it is charged to CP.
pub const MOVE_DURABILITY: i8 = 120;

/// The part of a state that decides what can still be gained from it when durability
/// is bought with CP.
pub struct ReducedData {
    /// The CP of the state, with its durability and its Manipulation turned into CP.
    pub cp: i16,
    pub combo: Combo,
    /// Whether only progress is left to gain.
    pub progress_only: bool,
    pub effects: EffectsData,
}

/// What a solver of this kind is set up with.
pub struct BoundContext {
    /// The settings of the solver: those of the craft with CP without end and without
    /// the adversary.
    pub settings: SolverSettings,
    /// The CP that 5 durability cost.
    pub durability_cost: i16,
    /// The CP below which Waste Not is not tried.
    pub waste_not_1_min_cp: i16,
    /// The CP below which Waste Not II is not tried.
    pub waste_not_2_min_cp: i16,
}

/// The steps of 5 durability in an amount of durability.
pub open spec fn durability_units(durability: int) -> int {
    if durability <= 0 {
        0
    } else {
        durability / 5
    }
}

/// An amount of CP as a reduced state holds it: within the range of its type.
pub open spec fn held_cp(cp: int) -> i16 {
    if cp > i16::MAX {
        i16::MAX
    } else if cp < i16::MIN {
        i16::MIN
    } else {
        cp as i16
    }
}

/// The effects of a reduced state: those of the state without Manipulation and
/// Trained Perfection, which are paid out in CP, and without the guard, which the
/// solver has no use for. Great Strides and Muscle Memory count as fresh while they
/// are in force, which can only help the crafter.
pub open spec fn reduced_effects(effects: EffectsData) -> EffectsData {
    EffectsData {
        manipulation: 0,
        guard: 0,
        trained_perfection: SingleUse::Unavailable,
        great_strides: if effects.great_strides > 0 {
            3
        } else {
            0
        },
        muscle_memory: if effects.muscle_memory > 0 {
            5
        } else {
            0
        },
        ..effects
    }
}

/// The units of 5 durability that Trained Perfection is worth to a state: the 20
/// durability that it can save at the most, where it is in force or can still be
/// used.
pub open spec fn perfection_units(settings: Settings, effects: EffectsData) -> int {
    if effects.trained_perfection == SingleUse::Active || (effects.trained_perfection
        == SingleUse::Available && is_action_allowed(settings, Action::TrainedPerfection)) {
        4
    } else {
        0
    }
}

/// The reduced state of a state: every 5 durability and every step of Manipulation
/// that is left count as much CP as 5 durability cost, and so does what Trained
/// Perfection can save.
pub open spec fn reduce(context: BoundContext, state: StateData) -> ReducedData {
    ReducedData {
        cp: held_cp(
            state.cp + context.durability_cost * (durability_units(state.durability as int)
                + state.effects.manipulation + perfection_units(
                context.settings.simulator_settings,
                state.effects,
            )),
        ),
        combo: state.combo,
        progress_only: spec_is_progress_only_state(context.settings, state),
        effects: reduced_effects(state.effects),
    }
}

/// The state that stands for a reduced state at the start of a move.
pub open spec fn expand(state: ReducedData) -> StateData {
    StateData {
        cp: state.cp,
        durability: MOVE_DURABILITY,
        progress: 0,
        quality: 0,
        unreliable_quality: 0,
        effects: state.effects,
        combo: state.combo,
    }
}

/// What a move leads to.
pub struct MoveOutcome {
    /// The reduced state after the move.
    pub state: ReducedData,
    /// The progress that the move adds.
    pub progress: u16,
    /// The quality that the move adds.
    pub quality: u16,
}

/// Whether the move restores durability, which a solver that buys durability with CP
/// has no use for.
pub open spec fn restores_durability(action: ActionCombo) -> bool {
    action == ActionCombo::Single(Action::MasterMend) || action == ActionCombo::Single(
        Action::ImmaculateMend,
    ) || action == ActionCombo::Single(Action::Manipulation)
}

/// What a move makes of a reduced state: the move is simulated on the state that
/// stands for it, and the durability that it uses is charged to CP. `None` where the
/// move cannot be used.
pub open spec fn use_move(context: BoundContext, state: ReducedData, action: ActionCombo) -> Option<
    MoveOutcome,
> {
    if restores_durability(action) {
        None
    } else {
        match spec_use_action_combo(context.settings, expand(state), action) {
            Err(_) => None,
            Ok(next) => Some(
                MoveOutcome {
                    state: ReducedData {
                        cp: held_cp(
                            next.cp - context.durability_cost * durability_units(
                                MOVE_DURABILITY - next.durability,
                            ),
                        ),
                        combo: next.combo,
                        progress_only: state.progress_only || spec_is_progress_only_state(
                            context.settings,
                            next,
                        ),
                        effects: reduced_effects(next.effects),
                    },
                    progress: next.progress,
                    quality: next.quality,
                },
            ),
        }
    }
}

/// How many uses the single-use abilities have left in them.
pub open spec fn single_uses(effects: EffectsData) -> nat {
    (match effects.trained_perfection {
        SingleUse::Available => 2nat,
        SingleUse::Active => 1nat,
        SingleUse::Unavailable => 0nat,
    }) + (match effects.heart_and_soul {
        SingleUse::Available => 2nat,
        SingleUse::Active => 1nat,
        SingleUse::Unavailable => 0nat,
    }) + (if effects.quick_innovation_available {
        1nat
    } else {
        0nat
    })
}

/// The first reduced state comes before the second: it has fewer single uses left,
/// or as many and less CP. A move leads from a state to one that comes before it, so
/// that the search of a solver ends.
pub open spec fn precedes(child: ReducedData, state: ReducedData) -> bool {
    single_uses(child.effects) < single_uses(state.effects) || (single_uses(child.effects)
        == single_uses(state.effects) && child.cp < state.cp)
}

/// Whether a solver tries the move on the state: Waste Not and Waste Not II are tried
/// only with enough CP to make up for what they cost.
pub open spec fn should_use(context: BoundContext, state: ReducedData, action: ActionCombo) -> bool {
    if action == ActionCombo::Single(Action::WasteNot) {
        state.cp >= context.waste_not_1_min_cp
    } else if action == ActionCombo::Single(Action::WasteNot2) {
        state.cp >= context.waste_not_2_min_cp
    } else {
        true
    }
}

/// The moves that a solver tries on a state without a combo.
pub open spec fn search_actions(state: ReducedData) -> Seq<ActionCombo> {
    if state.progress_only {
        spec_progress_only_search_actions()
    } else {
        spec_full_search_actions()
    }
}

/// The moves that a solver tries on top for a state with a combo.
pub open spec fn combo_actions(combo: Combo) -> Seq<ActionCombo> {
    match combo {
        Combo::NoCombo => Seq::empty(),
        Combo::SynthesisBegin => seq![
            ActionCombo::Single(Action::MuscleMemory),
            ActionCombo::Single(Action::Reflect),
            ActionCombo::Single(Action::TrainedEye),
        ],
        Combo::BasicTouch => seq![
            ActionCombo::Single(Action::RefinedTouch),
            ActionCombo::Single(Action::StandardTouch),
        ],
        Combo::StandardTouch => seq![ActionCombo::Single(Action::AdvancedTouch)],
    }
}

/// The reduced state without its combo.
pub open spec fn drop_combo(state: ReducedData) -> ReducedData {
    ReducedData { combo: Combo::NoCombo, ..state }
}

/// The place of a state in the order in which the definitions below unfold.
pub open spec fn combo_level(state: ReducedData) -> nat {
    if state.combo == Combo::NoCombo {
        0
    } else {
        1
    }
}

/// The front of a reduced state: the progress and the quality that can be gained from
/// it by a run of moves whose last one adds progress and leaves at most 5 durability
/// unpaid.
pub open spec fn bound_front(context: BoundContext, state: ReducedData) -> Seq<ParetoValue>
    decreases single_uses(state.effects), state.cp + 32768, combo_level(state), 3nat, 0nat,
{
    if state.combo == Combo::NoCombo {
        normal_front(context, state, search_actions(state).len())
    } else {
        combo_front(context, state, combo_actions(state.combo).len())
    }
}

/// The front of a reduced state with a combo after the first `count` of its extra
/// moves were tried on top of the front of the state without the combo.
pub open spec fn combo_front(context: BoundContext, state: ReducedData, count: nat) -> Seq<
    ParetoValue,
>
    decreases single_uses(state.effects), state.cp + 32768, combo_level(state), 2nat, count,
{
    if state.combo == Combo::NoCombo {
        Seq::empty()
    } else if count == 0 {
        normal_front(
            context,
            drop_combo(state),
            search_actions(drop_combo(state)).len(),
        )
    } else {
        let previous = combo_front(context, state, (count - 1) as nat);
        if count > combo_actions(state.combo).len() {
            previous
        } else {
            with_move(context, state, previous, combo_actions(state.combo)[count - 1])
        }
    }
}

/// The front of a reduced state without a combo after the first `count` moves were
/// tried on it. Once the front needs no more, the remaining moves are not tried.
pub open spec fn normal_front(context: BoundContext, state: ReducedData, count: nat) -> Seq<
    ParetoValue,
>
    decreases single_uses(state.effects), state.cp + 32768, combo_level(state), 1nat, count,
{
    if count == 0 {
        Seq::empty()
    } else {
        let settings = context.settings.simulator_settings;
        let previous = normal_front(context, state, (count - 1) as nat);
        if count > search_actions(state).len() || is_max_front(
            previous,
            settings.max_progress,
            settings.max_quality,
        ) || !should_use(context, state, search_actions(state)[count - 1]) {
            previous
        } else {
            with_move(context, state, previous, search_actions(state)[count - 1])
        }
    }
}

/// A front with what a move adds to it.
///
/// A move that leaves CP for 5 durability or more leads on: what can be gained from
/// the state after it is gained on top of what the move gains itself. A move that
/// leaves less ends the run; it counts only if it overdraws by no more than 5
/// durability cost, and only if it adds progress.
pub open spec fn with_move(
    context: BoundContext,
    state: ReducedData,
    previous: Seq<ParetoValue>,
    action: ActionCombo,
) -> Seq<ParetoValue>
    decreases single_uses(state.effects), state.cp + 32768, combo_level(state), 0nat, 0nat,
{
    let settings = context.settings.simulator_settings;
    match use_move(context, state, action) {
        None => previous,
        Some(outcome) => {
            if outcome.state.cp >= context.durability_cost {
                if precedes(outcome.state, state) {
                    merged(
                        previous,
                        shifted(
                            bound_front(context, outcome.state),
                            outcome.progress,
                            outcome.quality,
                            settings.max_progress,
                            settings.max_quality,
                        ),
                        settings.max_progress,
                        settings.max_quality,
                    )
                } else {
                    previous
                }
            } else if outcome.state.cp >= -context.durability_cost && outcome.progress != 0 {
                merged(
                    previous,
                    seq![ParetoValue { first: outcome.progress, second: outcome.quality }],
                    settings.max_progress,
                    settings.max_quality,
                )
            } else {
                previous
            }
        },
    }
}

/// The number that names a reduced state in the table of a solver.
pub open spec fn key_of(state: ReducedData) -> int {
    state.effects.word() + 0x2000_0000 * (state.combo.index() + 4 * ((if state.progress_only {
        1int
    } else {
        0int
    }) + 2 * (state.cp + 32768)))
}

/// The key names the state: reduced states whose effects fit their bits and whose keys
/// agree are the same state.
pub proof fn lemma_key_names(a: ReducedData, b: ReducedData)
    requires
        a.effects.fits(),
        b.effects.fits(),
        key_of(a) == key_of(b),
    ensures
        a == b,
{
    a.effects.lemma_word();
    b.effects.lemma_word();
    let a_flag = if a.progress_only {
        1int
    } else {
        0int
    };
    let b_flag = if b.progress_only {
        1int
    } else {
        0int
    };
    let a2 = a_flag + 2 * (a.cp + 32768);
    let b2 = b_flag + 2 * (b.cp + 32768);
    let a1 = a.combo.index() + 4 * a2;
    let b1 = b.combo.index() + 4 * b2;
    lemma_digits(a.effects.word() as int, a1, b.effects.word() as int, b1, 0x2000_0000);
    lemma_digits(a.combo.index() as int, a2, b.combo.index() as int, b2, 4);
    lemma_digits(a_flag, a.cp + 32768, b_flag, b.cp + 32768, 2);
    EffectsData::lemma_word_names(a.effects, b.effects);
}

/// A reduced state as the solver holds it.
#[derive(Clone, Copy, Debug)]
pub struct ReducedState {
    cp: i16,
    combo: Combo,
    progress_only: bool,
    effects: Effects,
}

fn reduce_effects(effects: Effects) -> (r: Effects)
    ensures
        r@ == reduced_effects(effects@),
{
    effects.with_manipulation(0).with_guard(0).with_trained_perfection(
        SingleUse::Unavailable,
    ).with_great_strides(
        if effects.great_strides() > 0 {
            3
        } else {
            0
        },
    ).with_muscle_memory(
        if effects.muscle_memory() > 0 {
            5
        } else {
            0
        },
    )
}

fn hold_cp(cp: i32) -> (r: i16)
    ensures
        r == held_cp(cp as int),
{
    if cp > i16::MAX as i32 {
        i16::MAX
    } else if cp < i16::MIN as i32 {
        i16::MIN
    } else {
        cp as i16
    }
}

fn units(durability: i32) -> (r: i32)
    requires
        -256 <= durability <= 256,
    ensures
        r == durability_units(durability as int),
        0 <= r <= 52,
{
    if durability <= 0 {
        0
    } else {
        durability / 5
    }
}

impl ReducedState {
    pub closed spec fn view(self) -> ReducedData {
        ReducedData {
            cp: self.cp,
            combo: self.combo,
            progress_only: self.progress_only,
            effects: self.effects@,
        }
    }

    /// The state that stands for the reduced state at the start of a move.
    fn to_state(self) -> (r: SimulationState)
        ensures
            r@ == expand(self@),
    {
        SimulationState {
            cp: self.cp,
            durability: MOVE_DURABILITY,
            progress: 0,
            quality: 0,
            unreliable_quality: 0,
            effects: self.effects,
            combo: self.combo,
        }
    }

    /// The key of the reduced state.
    fn key(self) -> (r: u128)
        ensures
            r == key_of(self@),
            self@.effects.fits(),
    {
        proof {
            self.effects.lemma_view_bounds();
        }
        let word = self.effects.bits() as u128;
        let combo = self.combo.index() as u128;
        let flag: u128 = if self.progress_only {
            1
        } else {
            0
        };
        let cp = (self.cp as i32 + 32768) as u128;
        word + 0x2000_0000 * (combo + 4 * (flag + 2 * cp))
    }

    fn single_uses(self) -> (r: u8)
        ensures
            r == single_uses(self@.effects),
    {
        let perfection: u8 = match self.effects.trained_perfection() {
            SingleUse::Available => 2,
            SingleUse::Active => 1,
            SingleUse::Unavailable => 0,
        };
        let heart: u8 = match self.effects.heart_and_soul() {
            SingleUse::Available => 2,
            SingleUse::Active => 1,
            SingleUse::Unavailable => 0,
        };
        let quick: u8 = if self.effects.quick_innovation_available() {
            1
        } else {
            0
        };
        perfection + heart + quick
    }

    fn precedes(self, state: ReducedState) -> (r: bool)
        ensures
            r == precedes(self@, state@),
    {
        let mine = self.single_uses();
        let other = state.single_uses();
        mine < other || (mine == other && self.cp < state.cp)
    }

    fn drop_combo(self) -> (r: ReducedState)
        ensures
            r@ == drop_combo(self@),
    {
        ReducedState {
            cp: self.cp,
            combo: Combo::NoCombo,
            progress_only: self.progress_only,
            effects: self.effects,
        }
    }
}

pub open spec fn spec_waste_not_min_cp(
    waste_not_action_cp_cost: i16,
    effect_duration: i16,
    durability_cost: i16,
) -> int {
    // how many units of 5-durability does WasteNot have to save to be worth using over
    // restoring durability with CP?
    let min_durability_save = ((waste_not_action_cp_cost - 1) as int) / (durability_cost as int)
        + 1;
    if min_durability_save > effect_duration * 2 {
        i16::MAX as int
    } else {
        // how many 20-durability actions and how many 10-durability actions are needed?
        let double_dur_count = min_durability_save - effect_duration;
        let single_dur_count = if min_durability_save >= effect_duration {
            min_durability_save - effect_duration
        } else {
            effect_duration - min_durability_save
        };
        // minimum CP required to execute those actions
        let double_dur_cost = double_dur_count * (18 + durability_cost * 2);
        let single_dur_cost = single_dur_count * (0 + durability_cost);
        waste_not_action_cp_cost + double_dur_cost + single_dur_cost - durability_cost
    }
}

/// The least CP that a state must have so that Waste Not is not worse than restoring
/// durability with CP: the cost of the action, and the cost of the Groundworks and
/// Basic Syntheses that it takes to save as much durability as the action costs,
/// less one unit of durability. Where the effect does not last long enough to save
/// that much, no amount of CP will do.
pub fn waste_not_min_cp(waste_not_action_cp_cost: i16, effect_duration: i16, durability_cost: i16) -> (r:
    i16)
    requires
        1 <= durability_cost <= 100,
        1 <= waste_not_action_cp_cost <= 250,
        1 <= effect_duration <= 8,
    ensures
        r == spec_waste_not_min_cp(waste_not_action_cp_cost, effect_duration, durability_cost),
{
    let cost = waste_not_action_cp_cost as i32;
    let duration = effect_duration as i32;
    let unit = durability_cost as i32;
    let min_durability_save: i32 = (cost - 1) / unit + 1;
    assert(1 <= min_durability_save <= 250) by (nonlinear_arith)
        requires
            min_durability_save == ((cost - 1) as int) / (unit as int) + 1,
            1 <= cost <= 250,
            1 <= unit,
    ;
    if min_durability_save > duration * 2 {
        return i16::MAX;
    }
    let double_dur_count: i32 = min_durability_save - duration;
    let single_dur_count: i32 = if min_durability_save >= duration {
        min_durability_save - duration
    } else {
        duration - min_durability_save
    };
    assert(-8 <= double_dur_count <= 8 && 0 <= single_dur_count <= 8);
    let double_price: i32 = 18 + unit * 2;
    assert(double_dur_count * double_price <= 8 * 218 && double_dur_count * double_price >= -8
        * 218) by (nonlinear_arith)
        requires
            -8 <= double_dur_count <= 8,
            18 <= double_price <= 218,
    ;
    let double_dur_cost: i32 = double_dur_count * double_price;
    assert(0 <= single_dur_count * unit <= 800) by (nonlinear_arith)
        requires
            0 <= single_dur_count <= 8,
            1 <= unit <= 100,
    ;
    let single_dur_cost: i32 = single_dur_count * unit;
    (cost + double_dur_cost + single_dur_cost - unit) as i16
}

/// Whether the crafter of the settings has the action: the job level unlocks it and
/// the mask allows it.
pub open spec fn is_action_allowed(settings: Settings, action: Action) -> bool {
    settings.job_level >= action.level_requirement() && settings.allowed_actions@.contains(action)
}

/// The CP that 5 durability cost at the cheapest: 100 at most; a sixth of Master's
/// Mend, an eighth of Manipulation, and Immaculate Mend spread over all durability
/// but the last 5, each where the crafter has the action.
pub open spec fn spec_durability_cost(settings: Settings) -> int {
    let with_mend = if is_action_allowed(settings, Action::MasterMend) {
        min_int(100, (Action::MasterMend.base_cp_cost() as int) / 6)
    } else {
        100
    };
    let with_manipulation = if is_action_allowed(settings, Action::Manipulation) {
        min_int(with_mend, (Action::Manipulation.base_cp_cost() as int) / 8)
    } else {
        with_mend
    };
    let max_restored = (settings.max_durability as int) / 5 - 1;
    if is_action_allowed(settings, Action::ImmaculateMend) && max_restored >= 1 {
        min_int(
            with_manipulation,
            (Action::ImmaculateMend.base_cp_cost() as int) / (max_restored as int),
        )
    } else {
        with_manipulation
    }
}

/// The context is the one of a solver for the settings of a craft.
pub open spec fn relaxes(
    context: BoundContext,
    settings: Settings,
    backload_progress: bool,
    unsound_branch_pruning: bool,
) -> bool {
    &&& context.settings == (SolverSettings {
        simulator_settings: Settings { max_cp: i16::MAX, adversarial: false, ..settings },
        backload_progress,
        allow_unsound_branch_pruning: unsound_branch_pruning,
    })
    &&& context.durability_cost == spec_durability_cost(settings)
    &&& context.waste_not_1_min_cp == spec_waste_not_min_cp(56, 4, context.durability_cost)
    &&& context.waste_not_2_min_cp == spec_waste_not_min_cp(98, 8, context.durability_cost)
}

/// The solver of the quality bound: it knows, for every reduced state without a combo
/// that it has met, the front of what can be gained from it.
pub struct QualityUpperBoundSolver {
    solver_settings: SolverSettings,
    durability_cost: i16,
    waste_not_1_min_cp: i16,
    waste_not_2_min_cp: i16,
    full_actions: Vec<ActionCombo>,
    progress_actions: Vec<ActionCombo>,
    solved_states: Table<ParetoFrontId>,
    pareto_front_builder: ParetoFrontBuilder,
    interrupt_signal: AtomicFlag,
    interrupted: bool,
}

fn is_allowed(settings: &Settings, action: Action) -> (r: bool)
    ensures
        r == is_action_allowed(*settings, action),
{
    settings.job_level >= action.level_requirement() && settings.allowed_actions.has(action)
}

impl QualityUpperBoundSolver {
    /// What the solver is set up with.
    pub closed spec fn context(&self) -> BoundContext {
        BoundContext {
            settings: self.solver_settings,
            durability_cost: self.durability_cost,
            waste_not_1_min_cp: self.waste_not_1_min_cp,
            waste_not_2_min_cp: self.waste_not_2_min_cp,
        }
    }

    /// The fronts on the stack of the solver's builder.
    pub closed spec fn stack(&self) -> Seq<Seq<ParetoValue>> {
        self.pareto_front_builder.segments()
    }

    /// Whether the solver has seen the interrupt flag set since its last query began.
    pub closed spec fn interrupted(&self) -> bool {
        self.interrupted
    }

    /// The table holds, under the key of a reduced state, the name of the stored front
    /// of that state.
    pub closed spec fn table_ok(&self) -> bool {
        forall|state: ReducedData|
            state.effects.fits() && self.solved_states@.contains_key(
                #[trigger] key_of(state) as u128,
            ) ==> {
                &&& self.pareto_front_builder.holds(self.solved_states@[key_of(state) as u128])
                &&& self.pareto_front_builder.stored(self.solved_states@[key_of(state) as u128])
                    == bound_front(self.context(), state)
            }
    }

    /// The builder cuts at the targets of the settings, the lists of moves are the
    /// ones of the search, and the table is right.
    pub closed spec fn wf(&self) -> bool {
        &&& self.pareto_front_builder.wf()
        &&& self.pareto_front_builder.caps() == (
            self.solver_settings.simulator_settings.max_progress,
            self.solver_settings.simulator_settings.max_quality,
        )
        &&& self.full_actions@ == spec_full_search_actions()
        &&& self.progress_actions@ == spec_progress_only_search_actions()
        &&& 1 <= self.durability_cost <= 100
        &&& self.table_ok()
    }

    /// A solver for the settings of a craft.
    pub fn new(
        settings: Settings,
        backload_progress: bool,
        unsound_branch_pruning: bool,
        interrupt_signal: AtomicFlag,
    ) -> (r: QualityUpperBoundSolver)
        ensures
            r.wf(),
            relaxes(r.context(), settings, backload_progress, unsound_branch_pruning),
    {
        let relaxed = Settings {
            max_cp: i16::MAX,
            max_durability: settings.max_durability,
            max_progress: settings.max_progress,
            max_quality: settings.max_quality,
            base_progress: settings.base_progress,
            base_quality: settings.base_quality,
            job_level: settings.job_level,
            allowed_actions: settings.allowed_actions,
            adversarial: false,
        };
        let mut durability_cost: i16 = 100;
        if is_allowed(&settings, Action::MasterMend) {
            let master_mend_cost = Action::MasterMend.base_cp_cost();
            if master_mend_cost / 6 < durability_cost {
                durability_cost = master_mend_cost / 6;
            }
        }
        if is_allowed(&settings, Action::Manipulation) {
            let manipulation_cost = Action::Manipulation.base_cp_cost();
            if manipulation_cost / 8 < durability_cost {
                durability_cost = manipulation_cost / 8;
            }
        }
        if is_allowed(&settings, Action::ImmaculateMend) {
            let immaculate_mend_cost = Action::ImmaculateMend.base_cp_cost();
            let max_restored = settings.max_durability as i16 / 5 - 1;
            if max_restored >= 1 {
                assert(112int / (max_restored as int) >= 4) by (nonlinear_arith)
                    requires
                        1 <= max_restored <= 25,
                ;
                if immaculate_mend_cost / max_restored < durability_cost {
                    durability_cost = immaculate_mend_cost / max_restored;
                }
            }
        }
        QualityUpperBoundSolver {
            solver_settings: SolverSettings {
                simulator_settings: relaxed,
                backload_progress,
                allow_unsound_branch_pruning: unsound_branch_pruning,
            },
            durability_cost,
            waste_not_1_min_cp: waste_not_min_cp(56, 4, durability_cost),
            waste_not_2_min_cp: waste_not_min_cp(98, 8, durability_cost),
            full_actions: full_search_actions(),
            progress_actions: progress_only_search_actions(),
            solved_states: Table::new(),
            pareto_front_builder: ParetoFrontBuilder::new(
                settings.max_progress,
                settings.max_quality,
            ),
            interrupt_signal,
            interrupted: false,
        }
    }

    /// Takes note of what a read of the interrupt flag gave: the solver has seen the
    /// flag set if it had before or if this read found it set. The result says whether
    /// it has.
    fn note(&mut self, set: bool) -> (r: bool)
        ensures
            r == final(self).interrupted(),
            final(self).interrupted() == (old(self).interrupted() || set),
            final(self).wf() == old(self).wf(),
            final(self).context() == old(self).context(),
            final(self).stack() == old(self).stack(),
            final(self).solved_states == old(self).solved_states,
            final(self).pareto_front_builder == old(self).pareto_front_builder,
    {
        if set {
            self.interrupted = true;
        }
        self.interrupted
    }

    /// Reads the interrupt flag and takes note of it. The result says whether the flag
    /// was set at this read or at one before it.
    fn poll(&mut self) -> (r: bool)
        ensures
            r == final(self).interrupted(),
            old(self).interrupted() ==> r,
            final(self).wf() == old(self).wf(),
            final(self).context() == old(self).context(),
            final(self).stack() == old(self).stack(),
            final(self).solved_states == old(self).solved_states,
            final(self).pareto_front_builder == old(self).pareto_front_builder,
    {
        let set = self.interrupt_signal.is_set();
        self.note(set)
    }

    /// The reduced state of a state.
    fn reduce(&self, state: SimulationState) -> (r: ReducedState)
        requires
            1 <= self.durability_cost <= 100,
        ensures
            r@ == reduce(self.context(), state@),
    {
        let perfection: i32 = match state.effects.trained_perfection() {
            SingleUse::Active => 4,
            SingleUse::Available => if is_allowed(
                &self.solver_settings.simulator_settings,
                Action::TrainedPerfection,
            ) {
                4
            } else {
                0
            },
            SingleUse::Unavailable => 0,
        };
        let steps = units(state.durability as i32) + state.effects.manipulation() as i32
            + perfection;
        let unit = self.durability_cost as i32;
        assert(0 <= unit * steps <= 7100) by (nonlinear_arith)
            requires
                0 <= steps <= 71,
                1 <= unit <= 100,
        ;
        ReducedState {
            cp: hold_cp(state.cp as i32 + unit * steps),
            combo: state.combo,
            progress_only: is_progress_only_state(&self.solver_settings, &state),
            effects: reduce_effects(state.effects),
        }
    }

    /// What a move makes of a reduced state.
    fn use_move(&self, state: ReducedState, action: ActionCombo) -> (r: Option<
        (ReducedState, u16, u16),
    >)
        requires
            1 <= self.durability_cost <= 100,
        ensures
            match r {
                Some((next, progress, quality)) => use_move(self.context(), state@, action) == Some(
                    MoveOutcome { state: next@, progress, quality },
                ),
                None => use_move(self.context(), state@, action) is None,
            },
    {
        match action {
            ActionCombo::Single(Action::MasterMend) => {
                return None;
            },
            ActionCombo::Single(Action::ImmaculateMend) => {
                return None;
            },
            ActionCombo::Single(Action::Manipulation) => {
                return None;
            },
            _ => {},
        }
        match use_action_combo(&self.solver_settings, state.to_state(), action) {
            Err(_) => None,
            Ok(next) => {
                let used = units(MOVE_DURABILITY as i32 - next.durability as i32);
                let unit = self.durability_cost as i32;
                assert(0 <= unit * used <= 5200) by (nonlinear_arith)
                    requires
                        0 <= used <= 52,
                        1 <= unit <= 100,
                ;
                Some(
                    (
                        ReducedState {
                            cp: hold_cp(next.cp as i32 - unit * used),
                            combo: next.combo,
                            progress_only: state.progress_only || is_progress_only_state(
                                &self.solver_settings,
                                &next,
                            ),
                            effects: reduce_effects(next.effects),
                        },
                        next.progress,
                        next.quality,
                    ),
                )
            },
        }
    }

    fn should_use_action(&self, state: ReducedState, action: ActionCombo) -> (r: bool)
        ensures
            r == should_use(self.context(), state@, action),
    {
        match action {
            ActionCombo::Single(Action::WasteNot) => state.cp >= self.waste_not_1_min_cp,
            ActionCombo::Single(Action::WasteNot2) => state.cp >= self.waste_not_2_min_cp,
            _ => true,
        }
    }

    /// The table stays right when the store of the builder keeps what it had.
    proof fn lemma_table_kept(&self, before: &QualityUpperBoundSolver)
        requires
            before.table_ok(),
            self.solved_states@ == before.solved_states@,
            self.context() == before.context(),
            self.pareto_front_builder.keeps_store_of(&before.pareto_front_builder),
        ensures
            self.table_ok(),
    {
        assert forall|state: ReducedData|
            state.effects.fits() && self.solved_states@.contains_key(
                #[trigger] key_of(state) as u128,
            ) implies {
            &&& self.pareto_front_builder.holds(self.solved_states@[key_of(state) as u128])
            &&& self.pareto_front_builder.stored(self.solved_states@[key_of(state) as u128])
                == bound_front(self.context(), state)
        } by {
            let id = before.solved_states@[key_of(state) as u128];
            assert(before.pareto_front_builder.holds(id));
        }
    }

    /// Pushes the front of a reduced state on the stack of the builder. `None` where
    /// the solver was interrupted; the stack is then left as the search left it.
    fn solve_state(&mut self, state: ReducedState) -> (r: Option<()>)
        requires
            old(self).wf(),
        ensures
            final(self).wf(),
            final(self).context() == old(self).context(),
            final(self).pareto_front_builder.keeps_store_of(&old(self).pareto_front_builder),
            r is Some ==> final(self).stack() == old(self).stack().push(
                bound_front(old(self).context(), state@),
            ),
            r is None <==> final(self).interrupted(),
        decreases single_uses(state@.effects), state@.cp + 32768, combo_level(state@), 3nat, 0nat,
    {
        let ghost start = *self;
        if self.poll() {
            proof {
                self.lemma_table_kept(&start);
                assert(self.pareto_front_builder.keeps_store_of(&start.pareto_front_builder));
            }
            return None;
        }
        match state.combo {
            Combo::NoCombo => self.solve_normal_state(state),
            _ => self.solve_combo_state(state),
        }
    }

    fn solve_normal_state(&mut self, state: ReducedState) -> (r: Option<()>)
        requires
            old(self).wf(),
            state@.combo == Combo::NoCombo,
        ensures
            final(self).wf(),
            final(self).context() == old(self).context(),
            final(self).pareto_front_builder.keeps_store_of(&old(self).pareto_front_builder),
            r is Some ==> final(self).stack() == old(self).stack().push(
                normal_front(
                    old(self).context(),
                    state@,
                    search_actions(state@).len(),
                ),
            ),
            r is None <==> final(self).interrupted(),
        decreases single_uses(state@.effects), state@.cp + 32768, combo_level(state@), 1nat, 1nat,
    {
        let ghost context = self.context();
        let ghost base = self.stack();
        if self.poll() {
            return None;
        }
        self.pareto_front_builder.push_empty();
        proof {
            self.lemma_table_kept(old(self));
        }
        let count = if state.progress_only {
            self.progress_actions.len()
        } else {
            self.full_actions.len()
        };
        let mut i: usize = 0;
        while i < count
            invariant
                i <= count,
                count == search_actions(state@).len(),
                state@.combo == Combo::NoCombo,
                self.wf(),
                !self.interrupted(),
                self.context() == context,
                context == old(self).context(),
                self.stack() == base.push(normal_front(context, state@, i as nat)),
                self.pareto_front_builder.keeps_store_of(&old(self).pareto_front_builder),
            decreases count - i,
        {
            if !self.pareto_front_builder.is_max() {
                let action = if state.progress_only {
                    self.progress_actions[i]
                } else {
                    self.full_actions[i]
                };
                if self.should_use_action(state, action) {
                    let ghost previous = normal_front(context, state@, i as nat);
                    match self.build_child_front(state, action, Ghost(previous)) {
                        Some(_) => {},
                        None => {
                            return None;
                        },
                    }
                }
            }
            i = i + 1;
        }
        let ghost before = *self;
        let key = state.key();
        match self.pareto_front_builder.save() {
            Some(id) => {
                self.solved_states.insert(key, id);
                proof {
                    assert forall|other: ReducedData|
                        other.effects.fits() && self.solved_states@.contains_key(
                            #[trigger] key_of(other) as u128,
                        ) implies {
                        &&& self.pareto_front_builder.holds(
                            self.solved_states@[key_of(other) as u128],
                        )
                        &&& self.pareto_front_builder.stored(
                            self.solved_states@[key_of(other) as u128],
                        ) == bound_front(self.context(), other)
                    } by {
                        other.effects.lemma_word();
                        state@.effects.lemma_word();
                        if key_of(other) as u128 == key {
                            lemma_key_names(other, state@);
                        } else {
                            let old_id = before.solved_states@[key_of(other) as u128];
                            assert(before.pareto_front_builder.holds(old_id));
                        }
                    }
                }
            },
            None => {},
        }
        Some(())
    }

    fn solve_combo_state(&mut self, state: ReducedState) -> (r: Option<()>)
        requires
            old(self).wf(),
            state@.combo != Combo::NoCombo,
        ensures
            final(self).wf(),
            final(self).context() == old(self).context(),
            final(self).pareto_front_builder.keeps_store_of(&old(self).pareto_front_builder),
            r is Some ==> final(self).stack() == old(self).stack().push(
                combo_front(
                    old(self).context(),
                    state@,
                    combo_actions(state@.combo).len(),
                ),
            ),
            r is None <==> final(self).interrupted(),
        decreases single_uses(state@.effects), state@.cp + 32768, combo_level(state@), 2nat, 1nat,
    {
        let ghost context = self.context();
        let ghost base = self.stack();
        if self.poll() {
            return None;
        }
        let plain = state.drop_combo();
        let key = plain.key();
        match self.solved_states.get(key) {
            Some(id) => {
                self.pareto_front_builder.push_id(id);
                proof {
                    self.lemma_table_kept(old(self));
                }
            },
            None => {
                match self.solve_normal_state(plain) {
                    Some(_) => {},
                    None => {
                        return None;
                    },
                }
            },
        }
        assert(self.stack() == base.push(combo_front(context, state@, 0)));
        let first = match state.combo {
            Combo::SynthesisBegin => ActionCombo::Single(Action::MuscleMemory),
            Combo::BasicTouch => ActionCombo::Single(Action::RefinedTouch),
            _ => ActionCombo::Single(Action::AdvancedTouch),
        };
        match self.build_child_front(state, first, Ghost(combo_front(context, state@, 0))) {
            Some(_) => {},
            None => {
                return None;
            },
        }
        assert(self.stack() == base.push(combo_front(context, state@, 1)));
        let second = match state.combo {
            Combo::SynthesisBegin => ActionCombo::Single(Action::Reflect),
            Combo::BasicTouch => ActionCombo::Single(Action::StandardTouch),
            _ => {
                return Some(());
            },
        };
        match self.build_child_front(state, second, Ghost(combo_front(context, state@, 1))) {
            Some(_) => {},
            None => {
                return None;
            },
        }
        assert(self.stack() == base.push(combo_front(context, state@, 2)));
        match state.combo {
            Combo::SynthesisBegin => {},
            _ => {
                return Some(());
            },
        }
        match self.build_child_front(
            state,
            ActionCombo::Single(Action::TrainedEye),
            Ghost(combo_front(context, state@, 2)),
        ) {
            Some(_) => {},
            None => {
                return None;
            },
        }
        assert(self.stack() == base.push(combo_front(context, state@, 3)));
        Some(())
    }

    /// Adds to the front on top of the stack what a move adds to it.
    fn build_child_front(
        &mut self,
        state: ReducedState,
        action: ActionCombo,
        Ghost(previous): Ghost<Seq<ParetoValue>>,
    ) -> (r: Option<()>)
        requires
            old(self).wf(),
            old(self).stack().len() > 0,
            old(self).stack().last() == previous,
        ensures
            final(self).wf(),
            final(self).context() == old(self).context(),
            final(self).pareto_front_builder.keeps_store_of(&old(self).pareto_front_builder),
            r is Some ==> final(self).stack() == old(self).stack().drop_last().push(
                with_move(old(self).context(), state@, previous, action),
            ),
            r is None <==> final(self).interrupted(),
        decreases single_uses(state@.effects), state@.cp + 32768, combo_level(state@), 0nat, 1nat,
    {
        if self.poll() {
            return None;
        }
        let ghost base = self.stack().drop_last();
        assert(self.stack() =~= base.push(previous));
        match self.use_move(state, action) {
            Some((new_state, action_progress, action_quality)) => {
                if new_state.cp >= self.durability_cost {
                    if new_state.precedes(state) {
                        let key = new_state.key();
                        match self.solved_states.get(key) {
                            Some(id) => {
                                self.pareto_front_builder.push_id_shifted(
                                    id,
                                    action_progress,
                                    action_quality,
                                );
                                proof {
                                    self.lemma_table_kept(old(self));
                                }
                            },
                            None => {
                                match self.solve_state(new_state) {
                                    Some(_) => {},
                                    None => {
                                        return None;
                                    },
                                }
                                let ghost solved = *self;
                                self.pareto_front_builder.shift(action_progress, action_quality);
                                proof {
                                    self.lemma_table_kept(&solved);
                                }
                            },
                        }
                        let ghost middle = *self;
                        self.pareto_front_builder.merge();
                        proof {
                            self.lemma_table_kept(&middle);
                            assert(self.stack() =~= base.push(
                                with_move(old(self).context(), state@, previous, action),
                            ));
                        }
                    }
                } else if new_state.cp >= -self.durability_cost && action_progress != 0 {
                    // "durability" must not go lower than -5
                    // last action must be a progress increase
                    self.pareto_front_builder.push_value(
                        ParetoValue::new(action_progress, action_quality),
                    );
                    self.pareto_front_builder.merge();
                    proof {
                        self.lemma_table_kept(old(self));
                        assert(self.stack() =~= base.push(
                            with_move(old(self).context(), state@, previous, action),
                        ));
                    }
                }
            },
            None => {},
        }
        Some(())
    }
}

/// The quality that a state can still reach while it fills progress, as far as the
/// relaxed simulation of the context can tell: what the front of the reduced state
/// answers for the progress that is missing and the quality that is guaranteed
/// already, up to the quality target.
pub open spec fn quality_bound(context: BoundContext, state: StateData) -> int {
    let settings = context.settings.simulator_settings;
    front_bound(
        bound_front(context, reduce(context, state)),
        if state.progress >= settings.max_progress {
            0u16
        } else {
            (settings.max_progress - state.progress) as u16
        },
        state.guaranteed_quality() as u16,
        settings.max_quality,
    )
}

impl QualityUpperBoundSolver {
    /// An upper bound on the quality that can be reached from the state while progress
    /// is filled: see [`quality_bound`]. `None` where the solver saw the interrupt flag
    /// set during the query, and only there; the solver remembers that it did.
    pub fn quality_upper_bound(&mut self, state: SimulationState) -> (r: Option<u16>)
        requires
            old(self).wf(),
        ensures
            final(self).wf(),
            final(self).context() == old(self).context(),
            r is Some ==> r->Some_0 == quality_bound(old(self).context(), state@),
            r is None <==> final(self).interrupted(),
    {
        let ghost start = *self;
        self.interrupted = false;
        proof {
            self.lemma_table_kept(&start);
        }
        if self.poll() {
            return None;
        }
        let current_quality = state.guaranteed_quality();
        let max_progress = self.solver_settings.simulator_settings.max_progress;
        let missing_progress = if state.progress >= max_progress {
            0
        } else {
            max_progress - state.progress
        };
        let cap = self.solver_settings.simulator_settings.max_quality;
        let reduced_state = self.reduce(state);
        let key = reduced_state.key();
        match self.solved_states.get(key) {
            Some(id) => {
                let pareto_front = self.pareto_front_builder.retrieve(id);
                Some(query_front(pareto_front, missing_progress, current_quality, cap))
            },
            None => {
                let ghost before = *self;
                self.pareto_front_builder.clear();
                proof {
                    self.lemma_table_kept(&before);
                }
                match self.solve_state(reduced_state) {
                    Some(_) => {},
                    None => {
                        return None;
                    },
                }
                proof {
                    self.pareto_front_builder.lemma_fronts();
                }
                match self.pareto_front_builder.peek() {
                    Some(pareto_front) => Some(
                        query_front(pareto_front, missing_progress, current_quality, cap),
                    ),
                    None => None,
                }
            },
        }
    }
}

/// Every move of the bound solver leads from a reduced state without Manipulation to
/// a state that comes before it, where 5 durability cost CP at all: the search leaves
/// out no move for the sake of its own end.
pub proof fn lemma_move_precedes(context: BoundContext, state: ReducedData, action: ActionCombo)
    requires
        context.durability_cost >= 1,
        state.effects.manipulation == 0,
        use_move(context, state, action) is Some,
    ensures
        precedes(use_move(context, state, action)->Some_0.state, state),
{
    let simulated = context.settings.simulator_settings;
    let actions = action.spec_actions();
    lemma_run_spends(expand(state), actions, simulated);
    assert forall|i: int| 0 <= i < actions.len() implies !crate::transitions::restores_durability(
        #[trigger] actions[i],
    ) by {
    }
    lemma_run_wears(expand(state), actions, simulated);
    let raw = expand(state).run(actions, simulated)->Ok_0;
    let next = spec_use_action_combo(context.settings, expand(state), action)->Ok_0;
    let child = use_move(context, state, action)->Some_0.state;
    assert(next == crate::combos::settled(context.settings, raw));
    assert(next.cp == raw.cp && next.durability == raw.durability);
    assert(single_uses(next.effects) <= single_uses(raw.effects));
    assert(child.effects == reduced_effects(next.effects));
    assert(single_uses(child.effects) <= single_uses(next.effects));
    assert(single_uses(raw.effects) <= single_uses(state.effects));
    if single_uses(child.effects) == single_uses(state.effects) {
        assert(single_uses(raw.effects) == single_uses(state.effects));
        let used = durability_units(MOVE_DURABILITY - raw.durability);
        assert(raw.cp <= state.cp);
        assert(raw.cp < state.cp || used >= 1);
        assert(0 <= used <= context.durability_cost * used) by (nonlinear_arith)
            requires
                context.durability_cost >= 1,
                used >= 0,
        ;
        assert(raw.cp - context.durability_cost * used < state.cp);
        assert(child.cp == held_cp(raw.cp - context.durability_cost * used));
        assert(child.cp < state.cp);
    }
}

} // verus!
