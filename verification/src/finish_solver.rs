//! Whether a craft can still be finished: the most progress that a state can reach.
use vstd::prelude::*;
use crate::interrupt::AtomicFlag;
use crate::macro_solver::SolverError;
use crate::actions::Combo;
use crate::combos::progress_only_search_actions;
use crate::combos::spec_progress_only_search_actions;
use crate::combos::spec_use_action_combo;
use crate::combos::extended;
use crate::combos::run_actions;
use crate::combos::unfolded;
use crate::combos::use_action_combo;
use crate::combos::ActionCombo;
use crate::combos::SolverSettings;
use crate::effects::Effects;
use crate::effects::EffectsData;
use crate::memo::Table;
use crate::quality_upper_bound_solver::single_uses;
use crate::settings::Settings;
use crate::state::min_int;
use crate::state::SimulationState;
use crate::state::StateData;
use crate::actions::Action;
use crate::actions::Condition;
use crate::state::ActionError;
use crate::transitions::is_progress_action;
use crate::transitions::lemma_progress_agrees;
use crate::transitions::lemma_run_spends;
use crate::transitions::same_for_progress;
use crate::step_lower_bound_solver::lemma_digits;

verus! {

/// The part of a state that decides how much progress can still be made from it.
pub struct ReducedData {
    pub durability: i8,
    pub cp: i16,
    pub combo: Combo,
    pub effects: EffectsData,
}

/// The reduced state of a state: what only quality needs is left out.
pub open spec fn reduce(state: StateData) -> ReducedData {
    ReducedData {
        durability: state.durability,
        cp: state.cp,
        combo: state.combo,
        effects: EffectsData {
            inner_quiet: 0,
            innovation: 0,
            great_strides: 0,
            guard: 0,
            quick_innovation_available: false,
            ..state.effects
        },
    }
}

/// The state that stands for a reduced state, with nothing done yet.
pub open spec fn expand(state: ReducedData) -> StateData {
    StateData {
        cp: state.cp,
        durability: state.durability,
        progress: 0,
        quality: 0,
        unreliable_quality: 0,
        effects: state.effects,
        combo: state.combo,
    }
}

/// The settings with which the moves of the finish solver are simulated: those of the
/// craft without the adversary, and with no rule that strips a state.
pub open spec fn finish_settings(settings: Settings) -> SolverSettings {
    SolverSettings {
        simulator_settings: Settings { adversarial: false, ..settings },
        backload_progress: false,
        allow_unsound_branch_pruning: false,
    }
}

/// The durability that a state still has to spend: what it holds, and what
/// Manipulation will restore.
pub open spec fn durability_in_store(state: ReducedData) -> int {
    state.durability + 5 * state.effects.manipulation
}

/// The first reduced state comes before the second: it has fewer single uses left, or
/// as many and less CP, or as much of both and less durability in store. A move leads
/// from a state to one that comes before it, so that the search ends.
pub open spec fn precedes(child: ReducedData, state: ReducedData) -> bool {
    let fewer = single_uses(child.effects) < single_uses(state.effects);
    let as_many = single_uses(child.effects) == single_uses(state.effects);
    fewer || (as_many && child.cp < state.cp) || (as_many && child.cp == state.cp
        && durability_in_store(child) < durability_in_store(state))
}

/// The most progress that can be made from a reduced state, up to the target.
pub open spec fn finish_progress(settings: Settings, state: ReducedData) -> int
    decreases
            single_uses(state.effects),
            state.cp + 32768,
            durability_in_store(state) + 128,
            2nat,
            0nat,
{
    partial_progress(settings, state, spec_progress_only_search_actions().len())
}

/// The most progress that can be made from a reduced state by a run that starts with
/// one of the first `count` moves of the progress search. Once the target is reached,
/// the remaining moves are not tried.
pub open spec fn partial_progress(settings: Settings, state: ReducedData, count: nat) -> int
    decreases
            single_uses(state.effects),
            state.cp + 32768,
            durability_in_store(state) + 128,
            1nat,
            count,
{
    if count == 0 {
        0
    } else {
        let previous = partial_progress(settings, state, (count - 1) as nat);
        if count > spec_progress_only_search_actions().len() || previous >= settings.max_progress {
            previous
        } else {
            let reached = progress_through(
                settings,
                state,
                spec_progress_only_search_actions()[count - 1],
            );
            if reached > previous {
                reached
            } else {
                previous
            }
        }
    }
}

/// The most progress that can be made from a reduced state by a run that starts with
/// the move: what the move adds itself, and, unless it ends the craft, what can be
/// made from the state that it leads to, up to the target. Nothing where the move
/// cannot be used.
pub open spec fn progress_through(settings: Settings, state: ReducedData, action: ActionCombo) -> int
    decreases
            single_uses(state.effects),
            state.cp + 32768,
            durability_in_store(state) + 128,
            0nat,
            0nat,
{
    match spec_use_action_combo(finish_settings(settings), expand(state), action) {
        Err(_) => 0,
        Ok(next) => {
            if !next.is_final(settings) && precedes(reduce(next), state) {
                min_int(
                    settings.max_progress as int,
                    next.progress + finish_progress(settings, reduce(next)),
                )
            } else {
                next.progress as int
            }
        },
    }
}

/// The progress that can be made from a reduced state is a progress: it fits the
/// type.
pub proof fn lemma_partial_progress_bound(settings: Settings, state: ReducedData, count: nat)
    ensures
        0 <= partial_progress(settings, state, count) <= 65535,
    decreases
            single_uses(state.effects),
            state.cp + 32768,
            durability_in_store(state) + 128,
            1nat,
            count,
{
    if count > 0 {
        lemma_partial_progress_bound(settings, state, (count - 1) as nat);
        if count <= spec_progress_only_search_actions().len() {
            lemma_progress_through_bound(
                settings,
                state,
                spec_progress_only_search_actions()[count - 1],
            );
        }
    }
}

/// The progress that can be made through a move is a progress too.
pub proof fn lemma_progress_through_bound(settings: Settings, state: ReducedData, action: ActionCombo)
    ensures
        0 <= progress_through(settings, state, action) <= 65535,
    decreases
            single_uses(state.effects),
            state.cp + 32768,
            durability_in_store(state) + 128,
            0nat,
            0nat,
{
    match spec_use_action_combo(finish_settings(settings), expand(state), action) {
        Err(_) => {},
        Ok(next) => {
            if !next.is_final(settings) && precedes(reduce(next), state) {
                lemma_partial_progress_bound(
                    settings,
                    reduce(next),
                    spec_progress_only_search_actions().len(),
                );
            }
        },
    }
}

/// Whether the craft can be finished from the state: whether the progress that is
/// missing can still be made.
pub open spec fn spec_can_finish(settings: Settings, state: StateData) -> bool {
    finish_progress(settings, reduce(state)) >= settings.max_progress - state.progress
}

/// The number that names a reduced state in the table of the solver.
pub open spec fn key_of(state: ReducedData) -> int {
    state.effects.word() + 0x2000_0000 * (state.combo.index() + 4 * ((state.durability + 128) + 256
        * (state.cp + 32768)))
}

/// The key names the state: reduced states whose effects fit their bits and whose keys
/// agree are the same state.
pub proof fn lemma_key_names(a: ReducedData, b: ReducedData)
    requires
        a.effects.fits(),
        b.effects.fits(),
        key_of(a) == key_of(b),
    ensures
        a == b,
{
    a.effects.lemma_word();
    b.effects.lemma_word();
    let a2 = (a.durability + 128) + 256 * (a.cp + 32768);
    let b2 = (b.durability + 128) + 256 * (b.cp + 32768);
    let a1 = a.combo.index() + 4 * a2;
    let b1 = b.combo.index() + 4 * b2;
    lemma_digits(a.effects.word() as int, a1, b.effects.word() as int, b1, 0x2000_0000);
    lemma_digits(a.combo.index() as int, a2, b.combo.index() as int, b2, 4);
    lemma_digits(a.durability + 128, a.cp + 32768, b.durability + 128, b.cp + 32768, 256);
    EffectsData::lemma_word_names(a.effects, b.effects);
}

/// A reduced state as the solver holds it.
#[derive(Clone, Copy, Debug)]
pub struct ReducedState {
    durability: i8,
    cp: i16,
    combo: Combo,
    effects: Effects,
}

impl ReducedState {
    pub closed spec fn view(self) -> ReducedData {
        ReducedData {
            durability: self.durability,
            cp: self.cp,
            combo: self.combo,
            effects: self.effects@,
        }
    }

    fn from_state(state: &SimulationState) -> (r: ReducedState)
        ensures
            r@ == reduce(state@),
    {
        ReducedState {
            durability: state.durability,
            cp: state.cp,
            combo: state.combo,
            effects: state.effects.with_inner_quiet(0).with_innovation(0).with_great_strides(
                0,
            ).with_guard(0).with_quick_innovation_available(false),
        }
    }

    fn to_state(self) -> (r: SimulationState)
        ensures
            r@ == expand(self@),
    {
        SimulationState {
            cp: self.cp,
            durability: self.durability,
            progress: 0,
            quality: 0,
            unreliable_quality: 0,
            effects: self.effects,
            combo: self.combo,
        }
    }

    fn key(self) -> (r: u128)
        ensures
            r == key_of(self@),
            self@.effects.fits(),
    {
        proof {
            self.effects.lemma_view_bounds();
        }
        let word = self.effects.bits() as u128;
        let combo = self.combo.index() as u128;
        let durability = (self.durability as i16 + 128) as u128;
        let cp = (self.cp as i32 + 32768) as u128;
        word + 0x2000_0000 * (combo + 4 * (durability + 256 * cp))
    }

    fn single_uses(self) -> (r: u8)
        ensures
            r == single_uses(self@.effects),
    {
        let perfection: u8 = match self.effects.trained_perfection() {
            crate::effects::SingleUse::Available => 2,
            crate::effects::SingleUse::Active => 1,
            crate::effects::SingleUse::Unavailable => 0,
        };
        let heart: u8 = match self.effects.heart_and_soul() {
            crate::effects::SingleUse::Available => 2,
            crate::effects::SingleUse::Active => 1,
            crate::effects::SingleUse::Unavailable => 0,
        };
        let quick: u8 = if self.effects.quick_innovation_available() {
            1
        } else {
            0
        };
        perfection + heart + quick
    }

    fn precedes(self, state: ReducedState) -> (r: bool)
        ensures
            r == precedes(self@, state@),
    {
        let mine = self.single_uses();
        let other = state.single_uses();
        let my_store = self.durability as i16 + 5 * (self.effects.manipulation() as i16);
        let other_store = state.durability as i16 + 5 * (state.effects.manipulation() as i16);
        mine < other || (mine == other && self.cp < state.cp) || (mine == other && self.cp
            == state.cp && my_store < other_store)
    }
}

/// The solver that tells whether a craft can still be finished: it knows, for every
/// reduced state that it has met, the most progress that can be made from it.
pub struct FinishSolver {
    settings: Settings,
    solver_settings: SolverSettings,
    actions: Vec<ActionCombo>,
    max_progress: Table<u16>,
    interrupt_signal: AtomicFlag,
    interrupted: bool,
}

impl FinishSolver {
    /// The settings of the craft.
    pub closed spec fn settings(&self) -> Settings {
        self.settings
    }

    /// The table holds, under the key of a reduced state, the most progress that can
    /// be made from it.
    pub closed spec fn table_ok(&self) -> bool {
        forall|state: ReducedData|
            state.effects.fits() && self.max_progress@.contains_key(
                #[trigger] key_of(state) as u128,
            ) ==> self.max_progress@[key_of(state) as u128] == finish_progress(
                self.settings,
                state,
            )
    }

    pub closed spec fn wf(&self) -> bool {
        &&& self.solver_settings == finish_settings(self.settings)
        &&& self.actions@ == spec_progress_only_search_actions()
        &&& self.table_ok()
    }

    /// Whether the solver has seen the interrupt flag set since its last query began.
    pub closed spec fn interrupted(&self) -> bool {
        self.interrupted
    }

    /// Takes note of what a read of the interrupt flag gave: the solver has seen the
    /// flag set if it had before or if this read found it set. The result says whether
    /// it has.
    fn note(&mut self, set: bool) -> (r: bool)
        ensures
            r == final(self).interrupted(),
            final(self).interrupted() == (old(self).interrupted() || set),
            final(self).wf() == old(self).wf(),
            final(self).settings() == old(self).settings(),
            final(self).max_progress == old(self).max_progress,
    {
        if set {
            self.interrupted = true;
        }
        self.interrupted
    }

    /// Reads the interrupt flag and takes note of it. The result says whether the flag
    /// was set at this read or at one before it.
    fn poll(&mut self) -> (r: bool)
        ensures
            r == final(self).interrupted(),
            old(self).interrupted() ==> r,
            final(self).wf() == old(self).wf(),
            final(self).settings() == old(self).settings(),
            final(self).max_progress == old(self).max_progress,
    {
        let set = self.interrupt_signal.is_set();
        self.note(set)
    }

    /// A solver for the settings of a craft, which gives up where it finds the flag
    /// set.
    pub fn new(settings: Settings, interrupt_signal: AtomicFlag) -> (r: FinishSolver)
        ensures
            r.wf(),
            r.settings() == settings,
            !r.interrupted(),
    {
        FinishSolver {
            settings,
            solver_settings: SolverSettings {
                simulator_settings: Settings {
                    max_cp: settings.max_cp,
                    max_durability: settings.max_durability,
                    max_progress: settings.max_progress,
                    max_quality: settings.max_quality,
                    base_progress: settings.base_progress,
                    base_quality: settings.base_quality,
                    job_level: settings.job_level,
                    allowed_actions: settings.allowed_actions,
                    adversarial: false,
                },
                backload_progress: false,
                allow_unsound_branch_pruning: false,
            },
            actions: progress_only_search_actions(),
            max_progress: Table::new(),
            interrupt_signal,
            interrupted: false,
        }
    }

    /// Whether the craft can be finished from the state: whether some run of the moves
    /// of the progress search fills progress. `None` where the solver saw the
    /// interrupt flag set during the query, and only there; the solver remembers that
    /// it did.
    pub fn can_finish(&mut self, state: &SimulationState) -> (r: Option<bool>)
        requires
            old(self).wf(),
        ensures
            final(self).wf(),
            final(self).settings() == old(self).settings(),
            r is None <==> final(self).interrupted(),
            r is Some ==> r->Some_0 == spec_can_finish(old(self).settings(), state@),
    {
        self.interrupted = false;
        let max_progress = match self.solve_max_progress(ReducedState::from_state(state)) {
            Some(max_progress) => max_progress,
            None => {
                return None;
            },
        };
        let missing = if state.progress >= self.settings.max_progress {
            0
        } else {
            self.settings.max_progress - state.progress
        };
        Some(max_progress >= missing)
    }

    /// The most progress that can be made from a reduced state. The flag is read
    /// first, and again for every state that this one leads to.
    fn solve_max_progress(&mut self, state: ReducedState) -> (r: Option<u16>)
        requires
            old(self).wf(),
            !old(self).interrupted(),
        ensures
            final(self).wf(),
            final(self).settings() == old(self).settings(),
            r is None <==> final(self).interrupted(),
            r is Some ==> r->Some_0 == finish_progress(old(self).settings(), state@),
        decreases
                single_uses(state@.effects),
                state@.cp + 32768,
                durability_in_store(state@) + 128,
                2nat,
                0nat,
    {
        if self.poll() {
            return None;
        }
        let key = state.key();
        match self.max_progress.get(key) {
            Some(max_progress) => {
                return Some(max_progress);
            },
            None => {},
        }
        let ghost settings = self.settings;
        let target = self.settings.max_progress;
        let count = self.actions.len();
        let mut max_progress: u16 = 0;
        let mut i: usize = 0;
        while i < count
            invariant
                i <= count,
                count == spec_progress_only_search_actions().len(),
                self.wf(),
                !self.interrupted(),
                self.settings == settings,
                settings == old(self).settings,
                target == settings.max_progress,
                max_progress == partial_progress(settings, state@, i as nat),
            decreases count - i,
        {
            if max_progress < target {
                let action = self.actions[i];
                match use_action_combo(&self.solver_settings, state.to_state(), action) {
                    Ok(new_state) => {
                        let mut reached = new_state.progress;
                        if !new_state.is_final(&self.settings) {
                            let child = ReducedState::from_state(&new_state);
                            if child.precedes(state) {
                                let child_progress = match self.solve_max_progress(child) {
                                    Some(child_progress) => child_progress,
                                    None => {
                                        return None;
                                    },
                                };
                                let sum = new_state.progress as u32 + child_progress as u32;
                                reached = if sum < target as u32 {
                                    sum as u16
                                } else {
                                    target
                                };
                            }
                        }
                        assert(reached == progress_through(settings, state@, action));
                        if reached > max_progress {
                            max_progress = reached;
                        }
                    },
                    Err(_) => {
                        assert(progress_through(settings, state@, action) == 0);
                    },
                }
            }
            i = i + 1;
        }
        let ghost before = *self;
        self.max_progress.insert(key, max_progress);
        proof {
            assert forall|other: ReducedData|
                other.effects.fits() && self.max_progress@.contains_key(
                    #[trigger] key_of(other) as u128,
                ) implies self.max_progress@[key_of(other) as u128] == finish_progress(
                self.settings,
                other,
            ) by {
                other.effects.lemma_word();
                state@.effects.lemma_word();
                if key_of(other) as u128 == key {
                    lemma_key_names(other, state@);
                } else {
                    assert(before.max_progress@.contains_key(key_of(other) as u128));
                }
            }
        }
        Some(max_progress)
    }
}

/// Every move of the finish solver leads to a state that comes before the one that it
/// was used on: the search leaves out no move for the sake of its own end.
pub proof fn lemma_move_precedes(settings: Settings, state: ReducedData, action: ActionCombo)
    requires
        spec_use_action_combo(finish_settings(settings), expand(state), action) is Ok,
    ensures
        precedes(
            reduce(spec_use_action_combo(finish_settings(settings), expand(state), action)->Ok_0),
            state,
        ),
{
    let simulated = finish_settings(settings).simulator_settings;
    lemma_run_spends(expand(state), action.spec_actions(), simulated);
}

/// The settings with which a move is simulated on the craft itself: those of the
/// craft, and no rule that strips a state.
pub open spec fn plain_settings(settings: Settings) -> SolverSettings {
    SolverSettings {
        simulator_settings: settings,
        backload_progress: false,
        allow_unsound_branch_pruning: false,
    }
}

/// Where progress can be made from a reduced state at all, one of the moves that
/// were tried makes as much as can be made.
pub proof fn lemma_best_move(settings: Settings, state: ReducedData, count: nat)
    requires
        partial_progress(settings, state, count) > 0,
    ensures
        exists|i: int|
            0 <= i < count && i < spec_progress_only_search_actions().len()
                && #[trigger] progress_through(
                settings,
                state,
                spec_progress_only_search_actions()[i],
            ) == partial_progress(settings, state, count),
    decreases count,
{
    let previous = partial_progress(settings, state, (count - 1) as nat);
    if count > spec_progress_only_search_actions().len() || previous >= settings.max_progress
        || progress_through(settings, state, spec_progress_only_search_actions()[count - 1])
        <= previous {
        lemma_best_move(settings, state, (count - 1) as nat);
        let i = choose|i: int|
            0 <= i < count - 1 && i < spec_progress_only_search_actions().len()
                && #[trigger] progress_through(
                settings,
                state,
                spec_progress_only_search_actions()[i],
            ) == previous;
        assert(progress_through(settings, state, spec_progress_only_search_actions()[i])
            == partial_progress(settings, state, count));
    } else {
        assert(progress_through(settings, state, spec_progress_only_search_actions()[count - 1])
            == partial_progress(settings, state, count));
    }
}

/// The moves of the search for progress are made of its actions; a move of two
/// actions starts with Heart and Soul.
pub proof fn lemma_progress_moves(i: int)
    requires
        0 <= i < spec_progress_only_search_actions().len(),
    ensures
        ({
            let actions = spec_progress_only_search_actions()[i].spec_actions();
            &&& 1 <= actions.len() <= 2
            &&& is_progress_action(actions[0])
            &&& actions.len() == 2 ==> actions[0] == Action::HeartAndSoul && is_progress_action(
                actions[1],
            )
        }),
{
}

/// A move of the search for progress does to the craft what it does to the reduced
/// state of the craft: where it can be used on the one, its actions can be used on the
/// other; unless it fills the progress of the craft, it adds the same progress to
/// both; and where it ends neither, it leaves a craft whose reduced state is what it
/// made of the reduced state.
pub proof fn lemma_move_agrees(actual: StateData, settings: Settings, i: int)
    requires
        0 <= i < spec_progress_only_search_actions().len(),
        !actual.is_final(settings),
        spec_use_action_combo(
            finish_settings(settings),
            expand(reduce(actual)),
            spec_progress_only_search_actions()[i],
        ) is Ok,
    ensures
        actual.run(spec_progress_only_search_actions()[i].spec_actions(), settings) is Ok,
        ({
            let action = spec_progress_only_search_actions()[i];
            let next = actual.run(action.spec_actions(), settings)->Ok_0;
            let other = spec_use_action_combo(
                finish_settings(settings),
                expand(reduce(actual)),
                action,
            )->Ok_0;
            &&& next.progress < settings.max_progress ==> other.progress == next.progress
                - actual.progress
            &&& next.progress < settings.max_progress && !other.is_final(settings)
                ==> !next.is_final(settings) && reduce(next) == reduce(other)
        }),
{
    let action = spec_progress_only_search_actions()[i];
    let actions = action.spec_actions();
    let model = expand(reduce(actual));
    let relaxed = finish_settings(settings).simulator_settings;
    lemma_progress_moves(i);
    reveal_with_fuel(StateData::run, 3);
    assert(same_for_progress(actual, model));
    if actions.len() == 1 {
        lemma_progress_agrees(actual, model, actions[0], settings, relaxed);
        let next = actual.use_action(actions[0], Condition::Normal, settings)->Ok_0;
        assert(actions.skip(1).len() == 0);
        assert(actual.run(actions, settings) == Ok::<StateData, ActionError>(next));
        assert(actions[0] != Action::HeartAndSoul);
    } else {
        lemma_progress_agrees(actual, model, actions[0], settings, relaxed);
        let first = actual.use_action(actions[0], Condition::Normal, settings)->Ok_0;
        let other_first = model.use_action(actions[0], Condition::Normal, relaxed)->Ok_0;
        assert(other_first.progress == 0);
        assert(first.progress == actual.progress);
        crate::transitions::lemma_heart_and_soul_waits(model, relaxed);
        assert(!other_first.is_final(relaxed));
        assert(same_for_progress(first, other_first));
        assert(actions.skip(1)[0] == actions[1]);
        assert(actions.skip(1).skip(1).len() == 0);
        lemma_progress_agrees(first, other_first, actions[1], settings, relaxed);
        let next = first.use_action(actions[1], Condition::Normal, settings)->Ok_0;
        assert(actual.run(actions, settings) == Ok::<StateData, ActionError>(next));
        assert(actions[1] != Action::HeartAndSoul);
    }
}

/// From a state without durability no progress can be made.
pub proof fn lemma_worn_out(settings: Settings, state: ReducedData, count: nat)
    requires
        state.durability <= 0,
    ensures
        partial_progress(settings, state, count) == 0,
    decreases count,
{
    if count > 0 {
        lemma_worn_out(settings, state, (count - 1) as nat);
        if count <= spec_progress_only_search_actions().len() {
            let action = spec_progress_only_search_actions()[count - 1];
            reveal(StateData::use_action);
            assert(action.spec_actions().len() > 0);
            assert(expand(state).run(
                action.spec_actions(),
                finish_settings(settings).simulator_settings,
            ) is Err);
            assert(progress_through(settings, state, action) == 0);
        }
    }
}

/// The actions finish the craft from the state: each can be used on the state that the
/// one before it left, and the last one fills progress.
pub open spec fn finishes(settings: Settings, state: StateData, actions: Seq<Action>) -> bool {
    match state.run(actions, settings) {
        Ok(end) => end.progress >= settings.max_progress,
        Err(_) => false,
    }
}

/// What makes a move the next one on the way to the end of a craft: its actions can
/// be used, and they fill progress, or they lead to a state that comes before the one
/// they were used on and from which the craft can be finished.
pub open spec fn leads_on(settings: Settings, state: StateData, action: ActionCombo) -> bool {
    match state.run(action.spec_actions(), settings) {
        Err(_) => false,
        Ok(next) => next.progress >= settings.max_progress || (!next.is_final(settings)
            && precedes(reduce(next), reduce(state)) && spec_can_finish(settings, next)),
    }
}

/// From a craft that can be finished and is not over, one of the moves of the search
/// for progress leads on.
pub proof fn lemma_some_move_leads_on(settings: Settings, state: StateData)
    requires
        spec_can_finish(settings, state),
        state.progress < settings.max_progress,
    ensures
        exists|i: int|
            0 <= i < spec_progress_only_search_actions().len() && #[trigger] leads_on(
                settings,
                state,
                spec_progress_only_search_actions()[i],
            ),
{
    let count = spec_progress_only_search_actions().len();
    let missing = settings.max_progress - state.progress;
    if state.durability <= 0 {
        lemma_worn_out(settings, reduce(state), count);
    }
    lemma_best_move(settings, reduce(state), count);
    let i = choose|i: int|
        0 <= i < count && i < spec_progress_only_search_actions().len()
            && #[trigger] progress_through(
            settings,
            reduce(state),
            spec_progress_only_search_actions()[i],
        ) == partial_progress(settings, reduce(state), count);
    let action = spec_progress_only_search_actions()[i];
    assert(progress_through(settings, reduce(state), action) >= missing);
    lemma_move_agrees(state, settings, i);
    let next = state.run(action.spec_actions(), settings)->Ok_0;
    let other = spec_use_action_combo(finish_settings(settings), expand(reduce(state)), action)->Ok_0;
    if next.progress < settings.max_progress {
        assert(other.progress < missing);
        assert(!other.is_final(settings) && precedes(reduce(other), reduce(state)));
        assert(reduce(next) == reduce(other));
    }
    assert(leads_on(settings, state, action));
}

impl FinishSolver {
    /// Actions that finish the craft from the state; `None` where there are none. The
    /// search ends with `Interrupted` where the solver saw the interrupt flag set, and
    /// only there.
    ///
    /// The way is found move by move: from each state the first move of the search
    /// for progress is taken that fills progress, or after which the craft can still
    /// be finished.
    pub fn finishing_actions(&mut self, state: &SimulationState) -> (r: Result<
        Option<Vec<Action>>,
        SolverError,
    >)
        requires
            old(self).wf(),
        ensures
            final(self).wf(),
            final(self).settings() == old(self).settings(),
            r is Err <==> final(self).interrupted(),
            r is Err ==> r->Err_0 == SolverError::Interrupted,
            r is Ok ==> (r->Ok_0 is Some <==> spec_can_finish(old(self).settings(), state@)),
            r is Ok && r->Ok_0 is Some ==> finishes(
                old(self).settings(),
                state@,
                r->Ok_0->Some_0@,
            ),
    {
        let ghost settings = self.settings;
        match self.can_finish(state) {
            Some(true) => {},
            Some(false) => {
                return Ok(None);
            },
            None => {
                return Err(SolverError::Interrupted);
            },
        }
        let mut current = *state;
        let mut actions: Vec<Action> = Vec::new();
        assert(state@.run(actions@, settings) == Ok::<StateData, ActionError>(current@));
        while current.progress < self.settings.max_progress
            invariant
                self.wf(),
                !self.interrupted(),
                self.settings == settings,
                settings == old(self).settings,
                spec_can_finish(settings, current@),
                spec_can_finish(settings, state@),
                state@.run(actions@, settings) == Ok::<StateData, ActionError>(current@),
            decreases
                    single_uses(reduce(current@).effects),
                    reduce(current@).cp + 32768,
                    durability_in_store(reduce(current@)) + 128,
        {
            let count = self.actions.len();
            let reduced = ReducedState::from_state(&current);
            let mut chosen: Option<(ActionCombo, SimulationState)> = None;
            let mut i: usize = 0;
            while i < count && chosen.is_none()
                invariant
                    i <= count,
                    count == spec_progress_only_search_actions().len(),
                    self.wf(),
                    !self.interrupted(),
                    self.settings == settings,
                    settings == old(self).settings,
                    reduced@ == reduce(current@),
                    forall|j: int|
                        0 <= j < i && chosen is None ==> !#[trigger] leads_on(
                            settings,
                            current@,
                            spec_progress_only_search_actions()[j],
                        ),
                    chosen is Some ==> leads_on(settings, current@, chosen->Some_0.0)
                        && current@.run(chosen->Some_0.0.spec_actions(), settings) == Ok::<
                        StateData,
                        ActionError,
                    >(chosen->Some_0.1@),
                decreases count - i + (if chosen is None {
                    1int
                } else {
                    0int
                }),
            {
                let action = self.actions[i];
                let moves = action.actions();
                match run_actions(current, &moves, &self.settings) {
                    Ok(child) => {
                        if child.progress >= self.settings.max_progress {
                            chosen = Some((action, child));
                        } else if !child.is_final(&self.settings) {
                            if ReducedState::from_state(&child).precedes(reduced) {
                                match self.can_finish(&child) {
                                    Some(true) => {
                                        chosen = Some((action, child));
                                    },
                                    Some(false) => {},
                                    None => {
                                        return Err(SolverError::Interrupted);
                                    },
                                }
                            }
                        }
                    },
                    Err(_) => {},
                }
                i = i + 1;
            }
            match chosen {
                None => {
                    proof {
                        lemma_some_move_leads_on(settings, current@);
                    }
                    return Ok(None);
                },
                Some((action, child)) => {
                    proof {
                        crate::transitions::lemma_run_append(
                            state@,
                            actions@,
                            action.spec_actions(),
                            settings,
                        );
                    }
                    actions = extended(&actions, action);
                    if child.progress >= self.settings.max_progress {
                        return Ok(Some(actions));
                    }
                    current = child;
                },
            }
        }
        Ok(Some(actions))
    }
}

/// A run of moves of the search for progress.
pub open spec fn is_progress_run(moves: Seq<ActionCombo>) -> bool {
    forall|k: int|
        0 <= k < moves.len() ==> spec_progress_only_search_actions().contains(#[trigger] moves[k])
}

/// A craft that can be finished by the verdict of the finish solver can be finished:
/// there is a run of moves of the search for progress whose actions can be used on
/// the craft one after the other, and which fills progress.
pub proof fn lemma_can_finish_sound(settings: Settings, state: StateData)
    requires
        spec_can_finish(settings, state),
    ensures
        exists|moves: Seq<ActionCombo>|
            is_progress_run(moves) && #[trigger] finishes(settings, state, unfolded(moves)),
    decreases
            single_uses(reduce(state).effects),
            reduce(state).cp + 32768,
            durability_in_store(reduce(state)) + 128,
{
    if state.progress >= settings.max_progress {
        let moves = Seq::<ActionCombo>::empty();
        assert(unfolded(moves) =~= Seq::<Action>::empty());
        assert(finishes(settings, state, unfolded(moves)));
    } else {
        lemma_some_move_leads_on(settings, state);
        let i = choose|i: int|
            0 <= i < spec_progress_only_search_actions().len() && #[trigger] leads_on(
                settings,
                state,
                spec_progress_only_search_actions()[i],
            );
        let action = spec_progress_only_search_actions()[i];
        let next = state.run(action.spec_actions(), settings)->Ok_0;
        let rest = if next.progress >= settings.max_progress {
            Seq::<ActionCombo>::empty()
        } else {
            lemma_can_finish_sound(settings, next);
            choose|moves: Seq<ActionCombo>|
                is_progress_run(moves) && #[trigger] finishes(settings, next, unfolded(moves))
        };
        let moves = seq![action] + rest;
        assert(moves[0] == action);
        assert(moves.skip(1) =~= rest);
        assert(unfolded(moves) == action.spec_actions() + unfolded(rest));
        crate::transitions::lemma_run_append(
            state,
            action.spec_actions(),
            unfolded(rest),
            settings,
        );
        if next.progress >= settings.max_progress {
            assert(unfolded(rest) =~= Seq::<Action>::empty());
        }
        assert(finishes(settings, state, unfolded(moves)));
        assert forall|k: int| 0 <= k < moves.len() implies spec_progress_only_search_actions().contains(
            #[trigger] moves[k],
        ) by {
            if k > 0 {
                assert(moves[k] == rest[k - 1]);
            }
        }
    }
}

/// What the moves that were tried make of a reduced state is at least what any one
/// of them makes of it, or it is the target.
pub proof fn lemma_partial_covers(settings: Settings, state: ReducedData, count: nat, i: int)
    requires
        0 <= i < count <= spec_progress_only_search_actions().len(),
    ensures
        partial_progress(settings, state, count) >= settings.max_progress || partial_progress(
            settings,
            state,
            count,
        ) >= progress_through(settings, state, spec_progress_only_search_actions()[i]),
    decreases count,
{
    if i < count - 1 {
        lemma_partial_covers(settings, state, (count - 1) as nat, i);
    }
}

/// The converse of [`lemma_move_agrees`]: where the actions of a move of the search
/// for progress can be used on a craft, the move can be used on the reduced state of
/// the craft, with the same progress and the same state after it.
pub proof fn lemma_move_agrees_back(actual: StateData, settings: Settings, i: int)
    requires
        0 <= i < spec_progress_only_search_actions().len(),
        actual.run(spec_progress_only_search_actions()[i].spec_actions(), settings) is Ok,
    ensures
        !actual.is_final(settings),
        spec_use_action_combo(
            finish_settings(settings),
            expand(reduce(actual)),
            spec_progress_only_search_actions()[i],
        ) is Ok,
{
    let action = spec_progress_only_search_actions()[i];
    let actions = action.spec_actions();
    let model = expand(reduce(actual));
    let relaxed = finish_settings(settings).simulator_settings;
    lemma_progress_moves(i);
    reveal_with_fuel(StateData::run, 3);
    assert(same_for_progress(model, actual));
    assert(actual.use_action(actions[0], Condition::Normal, settings) is Ok);
    assert(!actual.is_final(settings)) by {
        reveal(StateData::use_action);
    }
    assert(!model.is_final(relaxed));
    lemma_progress_agrees(model, actual, actions[0], relaxed, settings);
    if actions.len() == 2 {
        let first = actual.use_action(actions[0], Condition::Normal, settings)->Ok_0;
        let other_first = model.use_action(actions[0], Condition::Normal, relaxed)->Ok_0;
        crate::transitions::lemma_heart_and_soul_waits(actual, settings);
        crate::transitions::lemma_heart_and_soul_waits(model, relaxed);
        assert(same_for_progress(other_first, first));
        assert(actions.skip(1)[0] == actions[1]);
        assert(first.use_action(actions[1], Condition::Normal, settings) is Ok);
        lemma_progress_agrees(other_first, first, actions[1], relaxed, settings);
    }
}

/// A craft that can be finished by moves of the search for progress can be finished
/// by the verdict of the finish solver.
pub proof fn lemma_can_finish_complete(settings: Settings, state: StateData, moves: Seq<ActionCombo>)
    requires
        is_progress_run(moves),
        finishes(settings, state, unfolded(moves)),
    ensures
        spec_can_finish(settings, state),
    decreases moves.len(),
{
    let count = spec_progress_only_search_actions().len();
    lemma_partial_progress_bound(settings, reduce(state), count);
    if state.progress < settings.max_progress {
        if moves.len() == 0 {
            assert(unfolded(moves) =~= Seq::<Action>::empty());
            assert(false);
        }
        let action = moves[0];
        let rest = moves.skip(1);
        assert(spec_progress_only_search_actions().contains(action));
        let i = choose|i: int| 0 <= i < count && spec_progress_only_search_actions()[i] == action;
        crate::transitions::lemma_run_split(
            state,
            action.spec_actions(),
            unfolded(rest),
            settings,
        );
        let next = state.run(action.spec_actions(), settings)->Ok_0;
        lemma_move_agrees_back(state, settings, i);
        lemma_move_agrees(state, settings, i);
        let other = spec_use_action_combo(finish_settings(settings), expand(reduce(state)), action)->Ok_0;
        let missing = settings.max_progress - state.progress;
        lemma_partial_covers(settings, reduce(state), count, i);
        if next.progress >= settings.max_progress {
            lemma_filled(state, settings, i);
            if !other.is_final(settings) && precedes(reduce(other), reduce(state)) {
                lemma_partial_progress_bound(settings, reduce(other), count);
            }
            assert(progress_through(settings, reduce(state), action) >= missing);
        } else {
            assert forall|k: int| 0 <= k < rest.len() implies spec_progress_only_search_actions().contains(
                #[trigger] rest[k],
            ) by {
                assert(rest[k] == moves[k + 1]);
            }
            lemma_can_finish_complete(settings, next, rest);
            if next.is_final(settings) {
                // a craft that is over and not done cannot be finished
                lemma_worn_out(settings, reduce(next), count);
                assert(false);
            }
            lemma_still_going(state, settings, i);
            lemma_move_precedes(settings, reduce(state), action);
            assert(reduce(next) == reduce(other));
            assert(progress_through(settings, reduce(state), action) >= missing);
        }
    }
}

/// Where the actions of a move fill the progress of a craft, the move adds at least
/// the progress that was missing to the reduced state of the craft.
pub proof fn lemma_filled(actual: StateData, settings: Settings, i: int)
    requires
        0 <= i < spec_progress_only_search_actions().len(),
        actual.run(spec_progress_only_search_actions()[i].spec_actions(), settings) is Ok,
        actual.run(spec_progress_only_search_actions()[i].spec_actions(), settings)->Ok_0.progress
            >= settings.max_progress,
    ensures
        spec_use_action_combo(
            finish_settings(settings),
            expand(reduce(actual)),
            spec_progress_only_search_actions()[i],
        ) is Ok,
        spec_use_action_combo(
            finish_settings(settings),
            expand(reduce(actual)),
            spec_progress_only_search_actions()[i],
        )->Ok_0.progress >= settings.max_progress - actual.progress,
{
    let action = spec_progress_only_search_actions()[i];
    let actions = action.spec_actions();
    let model = expand(reduce(actual));
    let relaxed = finish_settings(settings).simulator_settings;
    lemma_move_agrees_back(actual, settings, i);
    lemma_progress_moves(i);
    reveal_with_fuel(StateData::run, 3);
    assert(same_for_progress(model, actual));
    lemma_progress_agrees(model, actual, actions[0], relaxed, settings);
    if actions.len() == 2 {
        let first = actual.use_action(actions[0], Condition::Normal, settings)->Ok_0;
        let other_first = model.use_action(actions[0], Condition::Normal, relaxed)->Ok_0;
        crate::transitions::lemma_heart_and_soul_waits(actual, settings);
        crate::transitions::lemma_heart_and_soul_waits(model, relaxed);
        assert(same_for_progress(other_first, first));
        assert(actions.skip(1)[0] == actions[1]);
        lemma_progress_agrees(other_first, first, actions[1], relaxed, settings);
    }
}

/// Where the actions of a move leave a craft that is not over, the move leaves a
/// reduced state that is not over either.
pub proof fn lemma_still_going(actual: StateData, settings: Settings, i: int)
    requires
        0 <= i < spec_progress_only_search_actions().len(),
        actual.run(spec_progress_only_search_actions()[i].spec_actions(), settings) is Ok,
        !actual.run(spec_progress_only_search_actions()[i].spec_actions(), settings)->Ok_0.is_final(
            settings,
        ),
    ensures
        spec_use_action_combo(
            finish_settings(settings),
            expand(reduce(actual)),
            spec_progress_only_search_actions()[i],
        ) is Ok,
        !spec_use_action_combo(
            finish_settings(settings),
            expand(reduce(actual)),
            spec_progress_only_search_actions()[i],
        )->Ok_0.is_final(settings),
{
    let action = spec_progress_only_search_actions()[i];
    let actions = action.spec_actions();
    let model = expand(reduce(actual));
    let relaxed = finish_settings(settings).simulator_settings;
    lemma_move_agrees_back(actual, settings, i);
    lemma_progress_moves(i);
    reveal_with_fuel(StateData::run, 3);
    assert(same_for_progress(model, actual));
    lemma_progress_agrees(model, actual, actions[0], relaxed, settings);
    lemma_progress_agrees(actual, model, actions[0], settings, relaxed);
    if actions.len() == 2 {
        let first = actual.use_action(actions[0], Condition::Normal, settings)->Ok_0;
        let other_first = model.use_action(actions[0], Condition::Normal, relaxed)->Ok_0;
        crate::transitions::lemma_heart_and_soul_waits(actual, settings);
        crate::transitions::lemma_heart_and_soul_waits(model, relaxed);
        assert(same_for_progress(other_first, first));
        assert(actions.skip(1)[0] == actions[1]);
        lemma_progress_agrees(other_first, first, actions[1], relaxed, settings);
        lemma_progress_agrees(first, other_first, actions[1], settings, relaxed);
    }
}

} // verus!
