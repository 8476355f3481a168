//! The search for the action sequence that finishes a craft with the highest quality.
use vstd::prelude::*;
use crate::actions::Action;
use crate::actions::Condition;
use crate::combos::full_search_actions;
use crate::combos::is_progress_only_state;
use crate::combos::progress_only_search_actions;
use crate::combos::spec_full_search_actions;
use crate::combos::spec_is_progress_only_state;
use crate::combos::spec_use_action_combo;
use crate::combos::spec_progress_only_search_actions;
use crate::combos::extended;
use crate::combos::run_actions;
use crate::combos::use_action_combo;
use crate::combos::ActionCombo;
use crate::combos::SolverSettings;
use crate::finish_solver::finishes;
use crate::finish_solver::spec_can_finish;
use crate::finish_solver::FinishSolver;
use crate::interrupt::AtomicFlag;
use crate::quality_upper_bound_solver::quality_bound;
use crate::quality_upper_bound_solver::BoundContext;
use crate::quality_upper_bound_solver::QualityUpperBoundSolver;
use crate::search_queue::SearchQueue;
use crate::search_queue::SearchScore;
use crate::settings::Settings;
use crate::state::ActionError;
use crate::state::SimulationState;
use crate::state::StateData;
use crate::step_lower_bound_solver::StepLowerBoundSolver;

verus! {

/// What a solve is asked for.
#[derive(Clone, Copy, Debug, Default, PartialEq, Eq, Structural)]
pub struct SolverConfig {
    /// The quality beyond which nothing is gained. Quality counts up to the smaller of
    /// this and the maximum of the settings.
    pub quality_target: u16,
    /// Progress comes last: once there is progress, no quality is sought any more.
    pub backload_progress: bool,
    /// The quality of the solution holds against every run of conditions in which no
    /// two steps in a row are Poor. This is not what an expert recipe does to a
    /// craft: for one, the host must leave this off. The solver does not know the
    /// recipe and cannot tell.
    pub adversarial: bool,
    /// Of two solutions of the same quality the one that takes less time is the
    /// better, and only then the one with fewer steps; else the other way round.
    pub minimize_steps: bool,
}

/// Why a solve has no solution to give.
#[derive(Debug, PartialEq, Eq)]
pub enum SolverError {
    /// Progress cannot be filled from the state.
    NoSolution,
    /// The interrupt flag was set.
    Interrupted,
    /// The solver found its own work broken. This is a fault of the solver; a solve
    /// of [`MacroSolver`] does not end with it.
    InternalError(String),
}

/// The settings that a solve works with: those of the craft, with the quality target
/// of the config as the maximum where it is lower, and with the adversary of the
/// config.
pub open spec fn effective_settings(settings: Settings, config: SolverConfig) -> Settings {
    Settings {
        max_quality: if config.quality_target < settings.max_quality {
            config.quality_target
        } else {
            settings.max_quality
        },
        adversarial: config.adversarial,
        ..settings
    }
}

/// The quality that a run of actions guarantees from the state; nothing where an
/// action cannot be used.
pub open spec fn quality_of(settings: Settings, state: StateData, actions: Seq<Action>) -> int {
    match state.run(actions, settings) {
        Ok(end) => end.guaranteed_quality(),
        Err(_) => 0,
    }
}

/// The moves that a search tries on a state: those for progress alone where the state
/// has only progress left to gain, else all.
pub open spec fn search_moves(search: SolverSettings, state: StateData) -> Seq<ActionCombo> {
    if spec_is_progress_only_state(search, state) || state.guaranteed_quality()
        >= search.simulator_settings.max_quality {
        spec_progress_only_search_actions()
    } else {
        spec_full_search_actions()
    }
}

/// The state that a move of the search leads to.
pub open spec fn child_of(search: SolverSettings, state: StateData, index: int) -> StateData {
    spec_use_action_combo(search, state, search_moves(search, state)[index])->Ok_0
}

/// The finished craft that a roll-out knows after it has tried the first `count`
/// moves on a state, by its quality and its actions: the one it knew before, or one
/// of a higher quality to which a move leads from the state, and of those the first
/// of the highest quality. `prefix` holds the actions that led to the state.
pub open spec fn best_end(
    search: SolverSettings,
    state: StateData,
    prefix: Seq<Action>,
    known: Option<(int, Seq<Action>)>,
    count: nat,
) -> Option<(int, Seq<Action>)>
    decreases count,
{
    if count == 0 {
        known
    } else {
        let previous = best_end(search, state, prefix, known, (count - 1) as nat);
        let moves = search_moves(search, state);
        let settings = search.simulator_settings;
        if count > moves.len() {
            previous
        } else {
            match spec_use_action_combo(search, state, moves[count - 1]) {
                Ok(child) => if child.is_final(settings) && child.progress >= settings.max_progress
                    && (previous is None || child.guaranteed_quality() > previous->Some_0.0) {
                    Some((child.guaranteed_quality(), prefix + moves[count - 1].spec_actions()))
                } else {
                    previous
                },
                Err(_) => previous,
            }
        }
    }
}

/// The first of two states promises more than the second: its quality bound is the
/// higher one, or with the same bound it has the higher quality.
pub open spec fn outranks(bound: BoundContext, a: StateData, b: StateData) -> bool {
    quality_bound(bound, a) > quality_bound(bound, b) || (quality_bound(bound, a)
        == quality_bound(bound, b) && a.guaranteed_quality() > b.guaranteed_quality())
}

/// The index of the move by which a roll-out goes on from a state, among the first
/// `count` moves: the move to the state that promises most among those where the
/// craft is not over and can still be finished, and of such moves the first one.
/// Below 0 where there is none.
pub open spec fn best_child(
    search: SolverSettings,
    bound: BoundContext,
    state: StateData,
    count: nat,
) -> int
    decreases count,
{
    if count == 0 {
        -1
    } else {
        let previous = best_child(search, bound, state, (count - 1) as nat);
        let moves = search_moves(search, state);
        let settings = search.simulator_settings;
        if count > moves.len() {
            previous
        } else {
            match spec_use_action_combo(search, state, moves[count - 1]) {
                Ok(child) => if !child.is_final(settings) && spec_can_finish(settings, child) && (
                previous < 0 || outranks(bound, child, child_of(search, state, previous))) {
                    count - 1
                } else {
                    previous
                },
                Err(_) => previous,
            }
        }
    }
}

/// The finished craft that a roll-out ends with, by its quality and its actions; none
/// where it meets none.
///
/// A roll-out goes from state to state, each time to the state that promises most. On
/// its way it keeps the best finished craft that a move would have led to. It ends
/// where no state is left to go on to, where the craft that it keeps is as good as
/// the bound of the state that it would go on to, or where it has taken as many
/// moves as `fuel` allows.
pub open spec fn roll_out(
    search: SolverSettings,
    bound: BoundContext,
    state: StateData,
    prefix: Seq<Action>,
    known: Option<(int, Seq<Action>)>,
    fuel: nat,
) -> Option<(int, Seq<Action>)>
    decreases fuel,
{
    if fuel == 0 {
        known
    } else {
        let moves = search_moves(search, state);
        let seen = best_end(search, state, prefix, known, moves.len());
        let next = best_child(search, bound, state, moves.len());
        if next < 0 || (seen is Some && seen->Some_0.0 >= quality_bound(
            bound,
            child_of(search, state, next),
        )) {
            seen
        } else {
            roll_out(
                search,
                bound,
                child_of(search, state, next),
                prefix + moves[next].spec_actions(),
                seen,
                (fuel - 1) as nat,
            )
        }
    }
}

/// The quality that a roll-out of at most 100 moves secures from a state: the quality
/// of its actions where they finish the craft from the state, and none where they do
/// not or where the roll-out ends with no finished craft.
pub open spec fn rolled_quality(search: SolverSettings, bound: BoundContext, state: StateData) -> int {
    match roll_out(search, bound, state, Seq::empty(), None, 100) {
        Some(found) => if finishes(search.simulator_settings, state, found.1) {
            quality_of(search.simulator_settings, state, found.1)
        } else {
            0
        },
        None => 0,
    }
}

/// The finished craft that a roll-out keeps, if it has found one.
spec fn known_end(found: bool, quality: u16, actions: Seq<Action>) -> Option<(int, Seq<Action>)> {
    if found {
        Some((quality as int, actions))
    } else {
        None
    }
}

/// A finished craft that a search has found.
struct Solution {
    score: SearchScore,
    actions: Vec<Action>,
}

/// The solver of a craft: a best-first search over the states of the craft, which
/// leaves out what the finish solver and the two bounds rule out.
pub struct MacroSolver {
    settings: Settings,
    solver_settings: SolverSettings,
    minimize_steps: bool,
    finish_solver: FinishSolver,
    quality_upper_bound_solver: QualityUpperBoundSolver,
    step_lower_bound_solver: StepLowerBoundSolver,
    interrupt_signal: AtomicFlag,
    full_actions: Vec<ActionCombo>,
    progress_actions: Vec<ActionCombo>,
    nodes_visited: usize,
    interrupted: bool,
}

impl MacroSolver {
    /// The settings that the solver works with: see [`effective_settings`].
    pub closed spec fn settings(&self) -> Settings {
        self.settings
    }

    /// What the search goes by: the settings that the solver works with, whether
    /// progress comes last, and whether branches are cut by rules of thumb.
    pub closed spec fn search_settings(&self) -> SolverSettings {
        self.solver_settings
    }

    /// Whether of two solutions of one quality the one that takes less time is the
    /// better.
    pub closed spec fn minimizes_steps(&self) -> bool {
        self.minimize_steps
    }

    /// What the quality bounds of the search are worked out with.
    pub closed spec fn bound_context(&self) -> BoundContext {
        self.quality_upper_bound_solver.context()
    }

    pub closed spec fn wf(&self) -> bool {
        &&& self.solver_settings.simulator_settings == self.settings
        &&& self.finish_solver.wf()
        &&& self.finish_solver.settings() == self.settings
        &&& self.quality_upper_bound_solver.wf()
        &&& self.step_lower_bound_solver.wf()
        &&& self.full_actions@ == spec_full_search_actions()
        &&& self.progress_actions@ == spec_progress_only_search_actions()
    }

    /// A solver for a craft.
    ///
    /// `allow_unsound_branch_pruning` lets the search cut branches by rules of thumb:
    /// it then takes a state for one that has only progress left where Byregot's
    /// Blessing has used up Inner Quiet, or where Veneration runs under backloading.
    /// The search is faster for it and can miss the best solution.
    pub fn new(
        settings: Settings,
        config: SolverConfig,
        allow_unsound_branch_pruning: bool,
        interrupt_signal: AtomicFlag,
    ) -> (r: MacroSolver)
        ensures
            r.wf(),
            r.settings() == effective_settings(settings, config),
            r.search_settings() == (SolverSettings {
                simulator_settings: effective_settings(settings, config),
                backload_progress: config.backload_progress,
                allow_unsound_branch_pruning,
            }),
            r.minimizes_steps() == config.minimize_steps,
            crate::quality_upper_bound_solver::relaxes(
                r.bound_context(),
                effective_settings(settings, config),
                config.backload_progress,
                allow_unsound_branch_pruning,
            ),
            r.visited() == 0,
            !r.interrupted(),
    {
        let effective = Settings {
            max_cp: settings.max_cp,
            max_durability: settings.max_durability,
            max_progress: settings.max_progress,
            max_quality: if config.quality_target < settings.max_quality {
                config.quality_target
            } else {
                settings.max_quality
            },
            base_progress: settings.base_progress,
            base_quality: settings.base_quality,
            job_level: settings.job_level,
            allowed_actions: settings.allowed_actions,
            adversarial: config.adversarial,
        };
        MacroSolver {
            settings: effective,
            solver_settings: SolverSettings {
                simulator_settings: effective,
                backload_progress: config.backload_progress,
                allow_unsound_branch_pruning,
            },
            minimize_steps: config.minimize_steps,
            finish_solver: FinishSolver::new(effective, interrupt_signal.share()),
            quality_upper_bound_solver: QualityUpperBoundSolver::new(
                effective,
                config.backload_progress,
                allow_unsound_branch_pruning,
                interrupt_signal.share(),
            ),
            step_lower_bound_solver: StepLowerBoundSolver::new(
                effective,
                interrupt_signal.share(),
            ),
            interrupt_signal,
            full_actions: full_search_actions(),
            progress_actions: progress_only_search_actions(),
            nodes_visited: 0,
            interrupted: false,
        }
    }

    /// The number of nodes that the last solve has taken off its frontier.
    pub closed spec fn visited(&self) -> usize {
        self.nodes_visited
    }

    /// Whether the solver has seen the interrupt flag set since its last solve began.
    pub closed spec fn interrupted(&self) -> bool {
        self.interrupted
    }

    /// Takes note of what a read of the interrupt flag gave: the solver has seen the
    /// flag set if it had before or if this read found it set. The result says whether
    /// it has.
    fn note(&mut self, set: bool) -> (r: bool)
        ensures
            r == final(self).interrupted(),
            final(self).interrupted() == (old(self).interrupted() || set),
            final(self).wf() == old(self).wf(),
            final(self).settings() == old(self).settings(),
            final(self).solver_settings == old(self).solver_settings,
            final(self).minimize_steps == old(self).minimize_steps,
            final(self).nodes_visited == old(self).nodes_visited,
            final(self).full_actions == old(self).full_actions,
            final(self).progress_actions == old(self).progress_actions,
            final(self).bound_context() == old(self).bound_context(),
    {
        if set {
            self.interrupted = true;
        }
        self.interrupted
    }

    /// Reads the interrupt flag and takes note of it. The result says whether the flag
    /// was set at this read or at one before it.
    fn poll(&mut self) -> (r: bool)
        ensures
            r == final(self).interrupted(),
            old(self).interrupted() ==> r,
            final(self).wf() == old(self).wf(),
            final(self).settings() == old(self).settings(),
            final(self).solver_settings == old(self).solver_settings,
            final(self).minimize_steps == old(self).minimize_steps,
            final(self).nodes_visited == old(self).nodes_visited,
            final(self).full_actions == old(self).full_actions,
            final(self).progress_actions == old(self).progress_actions,
            final(self).bound_context() == old(self).bound_context(),
    {
        let set = self.interrupt_signal.is_set();
        self.note(set)
    }

    /// The settings that the solver works with. A craft that the solver is to solve
    /// starts from the state that these settings give, so that it starts under the
    /// adversary where the solver counts with one.
    pub fn simulator_settings(&self) -> (r: Settings)
        ensures
            r == self.settings(),
    {
        self.settings
    }

    /// The number of nodes that the last solve has taken off its frontier.
    pub fn nodes_visited(&self) -> (r: usize)
        ensures
            r == self.visited(),
    {
        self.nodes_visited
    }

    /// Finds a sequence of actions that finishes the craft from the state, of the
    /// highest quality that the search can find, and among those of one quality the
    /// one that is first in the order of the config.
    ///
    /// There is a solution where the finish solver finds that progress can be filled,
    /// and only there: every sequence that the search finds is simulated from the
    /// state before it counts, and the search starts from a sequence that finishes
    /// the craft. Only the interrupt flag keeps a solution from a craft that can be
    /// finished: the solve ends with `Interrupted` where the solver has seen the flag
    /// set, and only there.
    ///
    /// The quality of the solution is at least the quality that a roll-out from the
    /// state secures: see [`rolled_quality`]. The search starts from there, and a
    /// sequence takes the place of the best so far only where it is no worse.
    pub fn solve(&mut self, state: SimulationState) -> (r: Result<Vec<Action>, SolverError>)
        requires
            old(self).wf(),
        ensures
            final(self).wf(),
            final(self).settings() == old(self).settings(),
            final(self).search_settings() == old(self).search_settings(),
            final(self).minimizes_steps() == old(self).minimizes_steps(),
            r is Ok ==> finishes(old(self).settings(), state@, r->Ok_0@),
            r is Err ==> r->Err_0 == SolverError::NoSolution || r->Err_0
                == SolverError::Interrupted,
            r is Err && r->Err_0 == SolverError::Interrupted <==> final(self).interrupted(),
            !final(self).interrupted() ==> (r is Ok <==> spec_can_finish(
                old(self).settings(),
                state@,
            )),
            final(self).bound_context() == old(self).bound_context(),
            r is Ok ==> quality_of(old(self).settings(), state@, r->Ok_0@) >= rolled_quality(
                old(self).search_settings(),
                old(self).bound_context(),
                state@,
            ),
    {
        let on_progress = |nodes: usize| {};
        let on_intermediate = |actions: &[Action]| {};
        self.solve_with(state, &on_progress, &on_intermediate)
    }

    /// As [`solve`](Self::solve), and the host is told how the search goes: from time
    /// to time `on_progress` is called with the number of nodes that the search has
    /// taken off its frontier, and `on_intermediate` with each solution that is better
    /// than all before it, as soon as it is found. Both are called from the search
    /// itself and between two steps of it. The last and best solution is the one that
    /// is returned.
    pub fn solve_with<P: Fn(usize), S: Fn(&[Action])>(
        &mut self,
        state: SimulationState,
        on_progress: &P,
        on_intermediate: &S,
    ) -> (r: Result<Vec<Action>, SolverError>)
        requires
            old(self).wf(),
            forall|nodes: usize| call_requires(on_progress, (nodes,)),
            forall|actions: &[Action]| call_requires(on_intermediate, (actions,)),
        ensures
            final(self).wf(),
            final(self).settings() == old(self).settings(),
            final(self).search_settings() == old(self).search_settings(),
            final(self).minimizes_steps() == old(self).minimizes_steps(),
            r is Ok ==> finishes(old(self).settings(), state@, r->Ok_0@),
            r is Err ==> r->Err_0 == SolverError::NoSolution || r->Err_0
                == SolverError::Interrupted,
            r is Err && r->Err_0 == SolverError::Interrupted <==> final(self).interrupted(),
            !final(self).interrupted() ==> (r is Ok <==> spec_can_finish(
                old(self).settings(),
                state@,
            )),
            final(self).bound_context() == old(self).bound_context(),
            r is Ok ==> quality_of(old(self).settings(), state@, r->Ok_0@) >= rolled_quality(
                old(self).search_settings(),
                old(self).bound_context(),
                state@,
            ),
    {
        self.nodes_visited = 0;
        self.interrupted = false;
        if self.poll() {
            return Err(SolverError::Interrupted);
        }
        let can_finish = match self.finish_solver.can_finish(&state) {
            Some(can_finish) => can_finish,
            None => {
                self.interrupted = true;
                return Err(SolverError::Interrupted);
            },
        };
        if !can_finish {
            return Err(SolverError::NoSolution);
        }
        match self.do_solve(state, on_progress, on_intermediate) {
            Ok(Some(actions)) => Ok(actions),
            Ok(None) => Err(SolverError::NoSolution),
            Err(error) => Err(error),
        }
    }

    /// A sequence of actions that finishes the craft from the state, with the quality
    /// that it guarantees; `None` where the craft cannot be finished.
    ///
    /// It is the sequence of the roll-out from the state where that finishes the
    /// craft, and else the way of the finish solver: see [`roll_out`]. It ends with
    /// `Interrupted` where the solver has seen the interrupt flag set, and only there.
    fn fast_lower_bound(&mut self, state: SimulationState) -> (r: Result<
        Option<(u16, Vec<Action>)>,
        SolverError,
    >)
        requires
            old(self).wf(),
        ensures
            final(self).wf(),
            final(self).settings() == old(self).settings(),
            final(self).search_settings() == old(self).search_settings(),
            final(self).minimizes_steps() == old(self).minimizes_steps(),
            final(self).bound_context() == old(self).bound_context(),
            final(self).visited() == old(self).visited(),
            r is Err <==> final(self).interrupted(),
            r is Err ==> r->Err_0 == SolverError::Interrupted,
            r is Ok && r->Ok_0 is Some ==> {
                let found = r->Ok_0->Some_0;
                &&& finishes(old(self).settings(), state@, found.1@)
                &&& quality_of(old(self).settings(), state@, found.1@) == found.0
                &&& found.0 >= rolled_quality(
                    old(self).search_settings(),
                    old(self).bound_context(),
                    state@,
                )
            },
            r is Ok && r->Ok_0 is None ==> !spec_can_finish(old(self).settings(), state@),
    {
        if self.poll() {
            return Err(SolverError::Interrupted);
        }
        let ghost settings = self.settings;
        let ghost search = self.solver_settings;
        let ghost bound = self.quality_upper_bound_solver.context();
        let mut current = state;
        let mut actions: Vec<Action> = Vec::new();
        let mut best_quality: u16 = 0;
        let mut best_actions: Vec<Action> = Vec::new();
        let mut found = false;
        let mut fuel: u8 = 100;
        while fuel > 0
            invariant
                self.wf(),
                !self.interrupted(),
                self.nodes_visited == old(self).nodes_visited,
                self.settings == settings,
                settings == old(self).settings,
                self.solver_settings == old(self).solver_settings,
                self.minimize_steps == old(self).minimize_steps,
                search == self.solver_settings,
                search.simulator_settings == settings,
                bound == self.quality_upper_bound_solver.context(),
                bound == old(self).bound_context(),
                roll_out(search, bound, state@, Seq::empty(), None, 100) == roll_out(
                    search,
                    bound,
                    current@,
                    actions@,
                    known_end(found, best_quality, best_actions@),
                    fuel as nat,
                ),
            decreases fuel,
        {
            let ghost known = known_end(found, best_quality, best_actions@);
            let ghost prefix = actions@;
            let ghost from = current@;
            let ghost fuel_before = fuel as nat;
            fuel = fuel - 1;
            let progress_only = is_progress_only_state(&self.solver_settings, &current)
                || current.guaranteed_quality() >= self.settings.max_quality;
            let count = if progress_only {
                self.progress_actions.len()
            } else {
                self.full_actions.len()
            };
            let ghost moves = search_moves(search, from);
            let mut choice: Option<(ActionCombo, SimulationState, u16)> = None;
            let mut i: usize = 0;
            while i < count
                invariant
                    i <= count,
                    count == moves.len(),
                    moves == search_moves(search, from),
                    moves == (if progress_only {
                        self.progress_actions@
                    } else {
                        self.full_actions@
                    }),
                    from == current@,
                    prefix == actions@,
                    self.wf(),
                    !self.interrupted(),
                    self.nodes_visited == old(self).nodes_visited,
                    self.settings == settings,
                    settings == old(self).settings,
                    self.solver_settings == old(self).solver_settings,
                    self.minimize_steps == old(self).minimize_steps,
                    search == self.solver_settings,
                    search.simulator_settings == settings,
                    bound == self.quality_upper_bound_solver.context(),
                    bound == old(self).bound_context(),
                    known_end(found, best_quality, best_actions@) == best_end(
                        search,
                        from,
                        prefix,
                        known,
                        i as nat,
                    ),
                    choice is None <==> best_child(search, bound, from, i as nat) < 0,
                    choice is Some ==> {
                        let k = best_child(search, bound, from, i as nat);
                        &&& 0 <= k < i
                        &&& choice->Some_0.0 == moves[k]
                        &&& choice->Some_0.1@ == child_of(search, from, k)
                        &&& choice->Some_0.2 == quality_bound(bound, child_of(search, from, k))
                    },
                decreases count - i,
            {
                let action = if progress_only {
                    self.progress_actions[i]
                } else {
                    self.full_actions[i]
                };
                match use_action_combo(&self.solver_settings, current, action) {
                    Ok(child) => {
                        if child.is_final(&self.settings) {
                            if child.progress >= self.settings.max_progress && (!found
                                || child.guaranteed_quality() > best_quality) {
                                found = true;
                                best_quality = child.guaranteed_quality();
                                best_actions = extended(&actions, action);
                            }
                        } else {
                            let can_finish = match self.finish_solver.can_finish(&child) {
                                Some(can_finish) => can_finish,
                                None => {
                                    self.interrupted = true;
                                    return Err(SolverError::Interrupted);
                                },
                            };
                            if can_finish {
                                let value =
                                    match self.quality_upper_bound_solver.quality_upper_bound(
                                    child,
                                ) {
                                    Some(value) => value,
                                    None => {
                                        self.interrupted = true;
                                        return Err(SolverError::Interrupted);
                                    },
                                };
                                let better = match choice {
                                    Some((_, chosen, chosen_value)) => value > chosen_value || (
                                    value == chosen_value && child.guaranteed_quality()
                                        > chosen.guaranteed_quality()),
                                    None => true,
                                };
                                if better {
                                    choice = Some((action, child, value));
                                }
                            }
                        }
                    },
                    Err(_) => {},
                }
                i = i + 1;
            }
            match choice {
                Some((action, child, value)) => {
                    if found && best_quality >= value {
                        fuel = 0;
                    } else {
                        actions = extended(&actions, action);
                        current = child;
                    }
                },
                None => {
                    fuel = 0;
                },
            }
        }
        // what the roll-out has found counts as far as the simulation bears it out
        if found {
            match run_actions(state, &best_actions, &self.settings) {
                Ok(end) => {
                    if end.progress >= self.settings.max_progress {
                        return Ok(Some((end.guaranteed_quality(), best_actions)));
                    }
                },
                Err(_) => {},
            }
        }
        // else the way of the finish solver is the sequence
        match self.finish_solver.finishing_actions(&state) {
            Ok(Some(way)) => {
                match run_actions(state, &way, &self.settings) {
                    Ok(end) => Ok(Some((end.guaranteed_quality(), way))),
                    Err(_) => Ok(None),
                }
            },
            Ok(None) => Ok(None),
            Err(error) => {
                self.interrupted = true;
                Err(error)
            },
        }
    }

    /// The search: a sequence of actions that finishes the craft from the state, the
    /// best that the search finds; `None` where the craft cannot be finished.
    ///
    /// The search starts from the sequence of the roll-out. A sequence that it finds
    /// takes the place of the best so far where its score is higher and the
    /// simulation from the state bears it out with no less quality. The search ends
    /// with `Interrupted` where the solver has seen the interrupt flag set, and only
    /// there.
    fn do_solve<P: Fn(usize), S: Fn(&[Action])>(
        &mut self,
        state: SimulationState,
        on_progress: &P,
        on_intermediate: &S,
    ) -> (r: Result<Option<Vec<Action>>, SolverError>)
        requires
            old(self).wf(),
            forall|nodes: usize| call_requires(on_progress, (nodes,)),
            forall|actions: &[Action]| call_requires(on_intermediate, (actions,)),
        ensures
            final(self).wf(),
            final(self).settings() == old(self).settings(),
            final(self).search_settings() == old(self).search_settings(),
            final(self).minimizes_steps() == old(self).minimizes_steps(),
            r is Err <==> final(self).interrupted(),
            r is Err ==> r->Err_0 == SolverError::Interrupted,
            final(self).bound_context() == old(self).bound_context(),
            r is Ok && r->Ok_0 is Some ==> finishes(
                old(self).settings(),
                state@,
                r->Ok_0->Some_0@,
            ) && quality_of(old(self).settings(), state@, r->Ok_0->Some_0@) >= rolled_quality(
                old(self).search_settings(),
                old(self).bound_context(),
                state@,
            ),
            r is Ok && r->Ok_0 is None ==> !spec_can_finish(old(self).settings(), state@),
    {
        let ghost settings = self.settings;
        let ghost bound = self.quality_upper_bound_solver.context();
        let ghost rolled = rolled_quality(self.solver_settings, bound, state@);
        let max_quality = self.settings.max_quality;
        let first = match self.fast_lower_bound(state) {
            Ok(first) => first,
            Err(error) => {
                return Err(error);
            },
        };
        let (quality_lower_bound, first_actions) = match first {
            Some(found) => found,
            None => {
                return Ok(None);
            },
        };
        on_intermediate(first_actions.as_slice());
        let mut best_quality = quality_lower_bound;
        let mut solution = Solution {
            score: SearchScore::new(quality_lower_bound, u8::MAX, u8::MAX, &self.settings),
            actions: first_actions,
        };
        let minimum_score = SearchScore::new(quality_lower_bound, u8::MAX, u8::MAX, &self.settings);
        let mut search_queue = SearchQueue::new(minimum_score, self.minimize_steps);
        let mut node: Option<(SimulationState, SearchScore, usize)> = Some(
            (state, SearchScore::new(max_quality, 0, 0, &self.settings), 0),
        );
        while node.is_some() && self.nodes_visited < usize::MAX - 2
            invariant
                self.wf(),
                !self.interrupted(),
                self.settings == settings,
                settings == old(self).settings,
                self.solver_settings == old(self).solver_settings,
                self.minimize_steps == old(self).minimize_steps,
                max_quality == settings.max_quality,
                finishes(settings, state@, solution.actions@),
                best_quality == quality_of(settings, state@, solution.actions@),
                best_quality >= rolled,
                bound == self.quality_upper_bound_solver.context(),
                bound == old(self).bound_context(),
                search_queue.wf(),
                search_queue.log().len() <= self.nodes_visited + 1,
                node is Some ==> node->Some_0.2 < search_queue.log().len(),
                forall|nodes: usize| call_requires(on_progress, (nodes,)),
                forall|actions: &[Action]| call_requires(on_intermediate, (actions,)),
            decreases usize::MAX - self.nodes_visited,
        {
            self.nodes_visited = self.nodes_visited + 1;
            let ghost counted = self.nodes_visited;
            if self.poll() {
                return Err(SolverError::Interrupted);
            }
            if self.nodes_visited % 65536 == 0 {
                on_progress(self.nodes_visited);
            }
            let (current, score, backtrack_id) = match node {
                Some(popped) => popped,
                None => {
                    return Ok(None);
                },
            };
            let progress_only = current.guaranteed_quality() >= max_quality
                || is_progress_only_state(&self.solver_settings, &current);
            let count = if progress_only {
                self.progress_actions.len()
            } else {
                self.full_actions.len()
            };
            let current_steps = search_queue.steps(backtrack_id);
            let mut i: usize = 0;
            while i < count
                invariant
                    i <= count,
                    count == (if progress_only {
                        self.progress_actions@.len()
                    } else {
                        self.full_actions@.len()
                    }),
                    self.wf(),
                    !self.interrupted(),
                    self.settings == settings,
                    settings == old(self).settings,
                    self.solver_settings == old(self).solver_settings,
                    self.minimize_steps == old(self).minimize_steps,
                    max_quality == settings.max_quality,
                    finishes(settings, state@, solution.actions@),
                best_quality == quality_of(settings, state@, solution.actions@),
                best_quality >= rolled,
                bound == self.quality_upper_bound_solver.context(),
                bound == old(self).bound_context(),
                    search_queue.wf(),
                    search_queue.log().len() <= self.nodes_visited,
                    self.nodes_visited == counted,
                    backtrack_id < search_queue.log().len(),
                    forall|nodes: usize| call_requires(on_progress, (nodes,)),
                    forall|actions: &[Action]| call_requires(on_intermediate, (actions,)),
                decreases count - i,
            {
                let action = if progress_only {
                    self.progress_actions[i]
                } else {
                    self.full_actions[i]
                };
                let steps_after = if current_steps > 255 - action.steps() {
                    255
                } else {
                    current_steps + action.steps()
                };
                let duration_after = if score.duration > 255 - action.duration() {
                    255
                } else {
                    score.duration + action.duration()
                };
                match use_action_combo(&self.solver_settings, current, action) {
                    Ok(child) => {
                        let quality = child.guaranteed_quality();
                        if !child.is_final(&self.settings) {
                            // skip this state if it is impossible to max out Progress
                            let can_finish = match self.finish_solver.can_finish(&child) {
                                Some(can_finish) => can_finish,
                                None => {
                                    self.interrupted = true;
                                    return Err(SolverError::Interrupted);
                                },
                            };
                            if can_finish {
                                search_queue.update_min_score(
                                    SearchScore::new(quality, u8::MAX, u8::MAX, &self.settings),
                                );
                                let quality_upper_bound = if quality >= max_quality {
                                    quality
                                } else {
                                    match self.quality_upper_bound_solver.quality_upper_bound(
                                        child,
                                    ) {
                                        Some(bound) => bound,
                                        None => {
                                            self.interrupted = true;
                                            return Err(SolverError::Interrupted);
                                        },
                                    }
                                };
                                let step_lower_bound = if quality_upper_bound >= max_quality {
                                    let rest = match self.step_lower_bound_solver.step_lower_bound(
                                        child,
                                    ) {
                                        Some(rest) => rest,
                                        None => {
                                            self.interrupted = true;
                                            return Err(SolverError::Interrupted);
                                        },
                                    };
                                    if steps_after > 255 - rest {
                                        255
                                    } else {
                                        steps_after + rest
                                    }
                                } else {
                                    steps_after
                                };
                                search_queue.push(
                                    child,
                                    SearchScore::new(
                                        quality_upper_bound,
                                        duration_after,
                                        step_lower_bound,
                                        &self.settings,
                                    ),
                                    action,
                                    backtrack_id,
                                );
                            }
                        } else if child.progress >= self.settings.max_progress {
                            let solution_score = SearchScore::new(
                                quality,
                                duration_after,
                                steps_after,
                                &self.settings,
                            );
                            if solution.score.key(self.minimize_steps) < solution_score.key(
                                self.minimize_steps,
                            ) {
                                let way = search_queue.backtrack(backtrack_id);
                                let actions = extended(&way, action);
                                // it counts as far as the simulation bears it out
                                let borne_out = match run_actions(
                                    state,
                                    &actions,
                                    &self.settings,
                                ) {
                                    Ok(end) => if end.progress >= self.settings.max_progress
                                        && end.guaranteed_quality() >= best_quality {
                                        Some(end.guaranteed_quality())
                                    } else {
                                        None
                                    },
                                    Err(_) => None,
                                };
                                match borne_out {
                                    Some(reached) => {
                                        search_queue.update_min_score(solution_score);
                                        on_intermediate(actions.as_slice());
                                        on_progress(self.nodes_visited);
                                        best_quality = reached;
                                        solution = Solution { score: solution_score, actions };
                                    },
                                    None => {},
                                }
                            }
                        }
                    },
                    Err(_) => {},
                }
                i = i + 1;
            }
            assert(search_queue.log().len() <= self.nodes_visited);
            node = search_queue.pop();
        }
        // a search that runs out of numbers for its nodes ends with what it has
        Ok(Some(solution.actions))
    }
}

} // verus!
