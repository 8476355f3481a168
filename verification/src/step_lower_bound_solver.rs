//! A lower bound on the steps that a craft still needs to fill both progress and
//! quality.
//!
//! The bound counts the steps of a craft that is easier than the craft itself: CP
//! does not run out, there is no adversary, and an action may cost more durability
//! than is left, which ends the craft.
use vstd::prelude::*;
use crate::actions::Action;
use crate::actions::Combo;
use crate::actions::Condition;
use crate::effects::Effects;
use crate::effects::EffectsData;
use crate::effects::SingleUse;
use crate::interrupt::AtomicFlag;
use crate::memo::Table;
use crate::pareto::is_front;
use crate::pareto::merged;
use crate::pareto::shifted;
use crate::pareto::ParetoFrontBuilder;
use crate::pareto::ParetoFrontId;
use crate::pareto::ParetoValue;
use crate::settings::is_listing;
use crate::settings::Settings;
use crate::state::min_int;
use crate::state::SimulationState;
use crate::state::StateData;

verus! {

/// What a front holds for a query: the second coordinate of its first point that
/// reaches the missing progress, which is the largest among the points that reach it.
pub open spec fn reaching_second(front: Seq<ParetoValue>, missing: u16) -> Option<u16>
    decreases front.len(),
{
    if front.len() == 0 {
        None
    } else if front[0].first >= missing {
        Some(front[0].second)
    } else {
        reaching_second(front.skip(1), missing)
    }
}

/// The quality that a front promises to a state that misses `missing` progress and has
/// quality `current`: nothing where no point of the front reaches the progress, else
/// the best quality of such a point on top of the current one, up to the cap.
pub open spec fn front_bound(front: Seq<ParetoValue>, missing: u16, current: u16, cap: u16) -> int {
    match reaching_second(front, missing) {
        None => 0,
        Some(second) => min_int(cap as int, second + current),
    }
}

/// How a front answers a query, by the place of the answer.
pub proof fn lemma_reaching_second(front: Seq<ParetoValue>, missing: u16, index: int)
    requires
        0 <= index <= front.len(),
        forall|j: int| 0 <= j < index ==> (#[trigger] front[j]).first < missing,
        index < front.len() ==> front[index].first >= missing,
    ensures
        reaching_second(front, missing) == (if index < front.len() {
            Some(front[index].second)
        } else {
            None
        }),
    decreases index,
{
    if index > 0 {
        assert(front[0].first < missing);
        let rest = front.skip(1);
        assert forall|j: int| 0 <= j < index - 1 implies (#[trigger] rest[j]).first < missing by {
            assert(rest[j] == front[j + 1]);
        }
        if index < front.len() {
            assert(rest[index - 1] == front[index]);
        }
        lemma_reaching_second(rest, missing, index - 1);
    }
}

/// Finds the answer of a front to a query.
pub fn query_front(front: &[ParetoValue], missing: u16, current: u16, cap: u16) -> (r: u16)
    requires
        is_front(front@),
    ensures
        r == front_bound(front@, missing, current, cap),
{
    let n = front.len();
    // the least index whose point reaches the missing progress
    let mut lo: usize = 0;
    let mut hi: usize = n;
    while lo < hi
        invariant
            lo <= hi <= n,
            n == front@.len(),
            is_front(front@),
            forall|j: int| 0 <= j < lo ==> (#[trigger] front@[j]).first < missing,
            hi < n ==> front@[hi as int].first >= missing,
        decreases hi - lo,
    {
        let mid = lo + (hi - lo) / 2;
        if front[mid].first < missing {
            proof {
                assert forall|j: int| 0 <= j < mid + 1 implies (#[trigger] front@[j]).first
                    < missing by {
                    if j < mid {
                        assert(front@[j].first < front@[mid as int].first);
                    }
                }
            }
            lo = mid + 1;
        } else {
            hi = mid;
        }
    }
    proof {
        lemma_reaching_second(front@, missing, lo as int);
    }
    if lo >= n {
        return 0;
    }
    let sum = front[lo].second as u32 + current as u32;
    if sum < cap as u32 {
        sum as u16
    } else {
        cap
    }
}

/// The part of a state that decides what can still be gained from it within a number
/// of steps when CP does not run out.
pub struct ReducedData {
    pub steps_budget: u8,
    pub durability: i8,
    pub combo: Combo,
    pub effects: EffectsData,
}

/// What a solver of this kind is set up with.
pub struct StepContext {
    /// The settings, with unlimited CP and with the actions that the solver tries.
    pub settings: Settings,
    /// Whether durability is kept. Where it is not, durability does not run out.
    pub slow: bool,
    /// The actions that the solver tries, in the order in which it tries them.
    pub actions: Seq<Action>,
}

/// The smaller of a counter and a budget of steps.
pub open spec fn at_most(counter: u8, steps_budget: u8) -> u8 {
    if counter <= steps_budget {
        counter
    } else {
        steps_budget
    }
}

/// The durability that can be used up within a budget of steps, of which none costs
/// more than 20.
pub open spec fn usable_durability(steps_budget: u8) -> i8 {
    if steps_budget >= 6 {
        i8::MAX
    } else {
        (20 * steps_budget) as i8
    }
}

/// An effect that lasts: in force for good once it is in force at all.
pub open spec fn lasting(counter: u8) -> u8 {
    if counter > 0 {
        8
    } else {
        0
    }
}

/// The reduced state of a state with a budget of steps.
///
/// What cannot matter within the budget is left out: a timer counts no further than
/// the budget, and durability no further than the budget can use up. The guard is
/// left out, as the relaxed simulation has no adversary. With durability, Waste Not
/// and Manipulation last once they are in force, which can only help the crafter.
/// Without durability, durability does not run out, and the effects that only save
/// or restore it are dropped.
pub open spec fn reduce(state: StateData, steps_budget: u8, slow: bool) -> ReducedData {
    let effects = state.effects;
    ReducedData {
        steps_budget,
        durability: if !slow {
            i8::MAX
        } else if state.durability <= usable_durability(steps_budget) {
            state.durability
        } else {
            usable_durability(steps_budget)
        },
        combo: if state.combo == Combo::StandardTouch {
            Combo::NoCombo
        } else {
            state.combo
        },
        effects: EffectsData {
            waste_not: if slow {
                lasting(effects.waste_not)
            } else {
                0
            },
            manipulation: if slow {
                lasting(effects.manipulation)
            } else {
                0
            },
            trained_perfection: if slow {
                effects.trained_perfection
            } else {
                SingleUse::Unavailable
            },
            innovation: at_most(effects.innovation, steps_budget),
            veneration: at_most(effects.veneration, steps_budget),
            great_strides: at_most(effects.great_strides, steps_budget),
            muscle_memory: at_most(effects.muscle_memory, steps_budget),
            guard: 0,
            ..effects
        },
    }
}

/// The state that stands for a reduced state: nothing done yet, and CP without end.
pub open spec fn expand(state: ReducedData) -> StateData {
    StateData {
        cp: i16::MAX,
        durability: state.durability,
        progress: 0,
        quality: 0,
        unreliable_quality: 0,
        effects: state.effects,
        combo: state.combo,
    }
}

/// A front that needs no more: a single point that reaches both caps.
pub open spec fn is_max_front(front: Seq<ParetoValue>, max_first: u16, max_second: u16) -> bool {
    front.len() == 1 && front[0].first >= max_first && front[0].second >= max_second
}

/// The front of a reduced state: the progress and the quality that can be gained
/// from it within its budget of steps by a run of actions whose last one adds
/// progress.
pub open spec fn step_front(context: StepContext, state: ReducedData) -> Seq<ParetoValue>
    decreases state.steps_budget, context.actions.len() + 1,
{
    partial_front(context, state, context.actions.len())
}

/// The front of a reduced state after the first `count` actions were tried on it.
///
/// An action that can be used, be it on less durability than it costs, leads to a
/// state from which, with a step less, the front of that state can be gained on top
/// of what the action gains itself; where no step is left or the craft is over, the
/// action counts alone, and only if it adds progress. Once the front needs no more,
/// the remaining actions are not tried.
pub open spec fn partial_front(context: StepContext, state: ReducedData, count: nat) -> Seq<
    ParetoValue,
>
    decreases state.steps_budget, count,
{
    if count == 0 {
        Seq::empty()
    } else {
        let settings = context.settings;
        let previous = partial_front(context, state, (count - 1) as nat);
        if count > context.actions.len() || is_max_front(
            previous,
            settings.max_progress,
            settings.max_quality,
        ) {
            previous
        } else {
            match expand(state).use_action_overdrawing(
                context.actions[count - 1],
                Condition::Normal,
                settings,
            ) {
                Err(_) => previous,
                Ok(next) => {
                    let gained = ParetoValue { first: next.progress, second: next.quality };
                    if state.steps_budget > 1 && !next.is_final(settings) {
                        merged(
                            previous,
                            shifted(
                                step_front(
                                    context,
                                    reduce(next, (state.steps_budget - 1) as u8, context.slow),
                                ),
                                gained.first,
                                gained.second,
                                settings.max_progress,
                                settings.max_quality,
                            ),
                            settings.max_progress,
                            settings.max_quality,
                        )
                    } else if next.progress != 0 {
                        merged(
                            previous,
                            seq![gained],
                            settings.max_progress,
                            settings.max_quality,
                        )
                    } else {
                        previous
                    }
                },
            }
        }
    }
}

/// The number that names a reduced state in the table of a solver.
pub open spec fn key_of(state: ReducedData) -> int {
    state.effects.word() + 0x2000_0000 * (state.combo.index() + 4 * (state.steps_budget + 256 * (
    state.durability + 128)))
}

/// Two numbers with the same digits at the same places are the same number, digit by
/// digit.
pub proof fn lemma_digits(low_a: int, high_a: int, low_b: int, high_b: int, radix: int)
    by (nonlinear_arith)
    requires
        0 <= low_a < radix,
        0 <= low_b < radix,
        low_a + radix * high_a == low_b + radix * high_b,
    ensures
        low_a == low_b,
        high_a == high_b,
{
}

/// The key names the state: reduced states whose effects fit their bits and whose keys
/// agree are the same state.
pub proof fn lemma_key_names(a: ReducedData, b: ReducedData)
    requires
        a.effects.fits(),
        b.effects.fits(),
        key_of(a) == key_of(b),
    ensures
        a == b,
{
    a.effects.lemma_word();
    b.effects.lemma_word();
    let a3 = a.durability + 128;
    let b3 = b.durability + 128;
    let a2 = a.steps_budget + 256 * a3;
    let b2 = b.steps_budget + 256 * b3;
    let a1 = a.combo.index() + 4 * a2;
    let b1 = b.combo.index() + 4 * b2;
    lemma_digits(a.effects.word() as int, a1, b.effects.word() as int, b1, 0x2000_0000);
    lemma_digits(a.combo.index() as int, a2, b.combo.index() as int, b2, 4);
    lemma_digits(a.steps_budget as int, a3, b.steps_budget as int, b3, 256);
    EffectsData::lemma_word_names(a.effects, b.effects);
}

fn least(counter: u8, steps_budget: u8) -> (r: u8)
    ensures
        r == at_most(counter, steps_budget),
        r <= counter,
{
    if counter <= steps_budget {
        counter
    } else {
        steps_budget
    }
}

/// A reduced state as the solver holds it.
#[derive(Clone, Copy, Debug)]
pub struct ReducedState {
    steps_budget: u8,
    durability: i8,
    combo: Combo,
    effects: Effects,
}

impl ReducedState {
    pub closed spec fn view(self) -> ReducedData {
        ReducedData {
            steps_budget: self.steps_budget,
            durability: self.durability,
            combo: self.combo,
            effects: self.effects@,
        }
    }

    /// The reduced state of a state with a budget of steps.
    pub fn from_state(state: SimulationState, steps_budget: u8, slow: bool) -> (r: ReducedState)
        ensures
            r@ == reduce(state@, steps_budget, slow),
    {
        let usable: i8 = if steps_budget >= 6 {
            i8::MAX
        } else {
            20 * (steps_budget as i8)
        };
        let effects = state.effects;
        let mut kept = effects.with_innovation(least(effects.innovation(), steps_budget))
            .with_veneration(least(effects.veneration(), steps_budget)).with_great_strides(
            least(effects.great_strides(), steps_budget),
        ).with_muscle_memory(least(effects.muscle_memory(), steps_budget)).with_guard(0);
        if slow {
            kept = kept.with_waste_not(
                if effects.waste_not() > 0 {
                    8
                } else {
                    0
                },
            ).with_manipulation(
                if effects.manipulation() > 0 {
                    8
                } else {
                    0
                },
            );
        } else {
            kept = kept.with_waste_not(0).with_manipulation(0).with_trained_perfection(
                SingleUse::Unavailable,
            );
        }
        ReducedState {
            steps_budget,
            durability: if !slow {
                i8::MAX
            } else if state.durability <= usable {
                state.durability
            } else {
                usable
            },
            combo: match state.combo {
                Combo::StandardTouch => Combo::NoCombo,
                _ => state.combo,
            },
            effects: kept,
        }
    }

    /// The state that stands for the reduced state.
    pub fn to_state(self) -> (r: SimulationState)
        ensures
            r@ == expand(self@),
    {
        SimulationState {
            cp: i16::MAX,
            durability: self.durability,
            progress: 0,
            quality: 0,
            unreliable_quality: 0,
            effects: self.effects,
            combo: self.combo,
        }
    }

    /// The key of the reduced state.
    pub fn key(self) -> (r: u128)
        ensures
            r == key_of(self@),
            self@.effects.fits(),
    {
        proof {
            self.effects.lemma_view_bounds();
        }
        let word = self.effects.bits() as u128;
        let combo = self.combo.index() as u128;
        let durability = (self.durability as i16 + 128) as u128;
        let budget = self.steps_budget as u128;
        word + 0x2000_0000 * (combo + 4 * (budget + 256 * durability))
    }
}

/// The set without the actions, where the condition holds; the set itself where not.
pub open spec fn without_if(set: Set<Action>, condition: bool, dropped: Set<Action>) -> Set<Action> {
    if condition {
        set.difference(dropped)
    } else {
        set
    }
}

/// The actions that a solver of this kind tries, of those that the settings allow.
///
/// With CP that does not run out, an action is left out where another one is in the
/// set that does as much for the same durability: Observe and Tricks of the Trade
/// gain nothing; Waste Not II outlasts Waste Not, Careful Synthesis outdoes Basic
/// Synthesis, Advanced Touch outdoes Basic and Standard Touch unless Refined Touch
/// needs them, and Immaculate Mend restores what Master's Mend does. Without
/// durability, the actions that save or restore it gain nothing, Groundwork outdoes
/// the other plain syntheses, and Preparatory Touch the other plain touches.
pub open spec fn tried_actions(allowed: Set<Action>, slow: bool) -> Set<Action> {
    let s0 = allowed.difference(set![Action::Observe, Action::TricksOfTheTrade]);
    let s1 = without_if(
        s0,
        !slow,
        set![
            Action::MasterMend,
            Action::ImmaculateMend,
            Action::Manipulation,
            Action::WasteNot,
            Action::WasteNot2,
            Action::TrainedPerfection,
        ],
    );
    let s2 = without_if(s1, s1.contains(Action::WasteNot2), set![Action::WasteNot]);
    let s3 = without_if(s2, s2.contains(Action::CarefulSynthesis), set![Action::BasicSynthesis]);
    let s4 = without_if(
        s3,
        s3.contains(Action::AdvancedTouch) && !s3.contains(Action::RefinedTouch),
        set![Action::BasicTouch, Action::StandardTouch],
    );
    let s5 = without_if(s4, s4.contains(Action::ImmaculateMend), set![Action::MasterMend]);
    let s6 = without_if(
        s5,
        !slow && s5.contains(Action::Groundwork),
        set![Action::CarefulSynthesis, Action::PrudentSynthesis, Action::BasicSynthesis],
    );
    let s7 = without_if(
        s6,
        !slow && s6.contains(Action::PreparatoryTouch),
        set![Action::AdvancedTouch, Action::PrudentTouch, Action::StandardTouch],
    );
    without_if(
        s7,
        !slow && s7.contains(Action::PreparatoryTouch) && !s7.contains(Action::RefinedTouch),
        set![Action::BasicTouch],
    )
}

/// The context is the one of a solver for the settings: it simulates with CP without
/// end, without the adversary and with the actions that the solver tries, and else
/// with the settings of the craft; and it tries the actions in the order of the
/// enumeration.
pub open spec fn relaxes(context: StepContext, settings: Settings, slow: bool) -> bool {
    &&& context.slow == slow
    &&& context.settings == (Settings {
        max_cp: i16::MAX,
        allowed_actions: context.settings.allowed_actions,
        adversarial: false,
        ..settings
    })
    &&& context.settings.allowed_actions@ == tried_actions(settings.allowed_actions@, slow)
    &&& is_listing(context.actions, context.settings.allowed_actions@)
}

/// One of the two solvers behind [`StepLowerBoundSolver`]: it knows, for every
/// reduced state that it has met, the front of what can be gained from it.
pub struct StepLowerBoundSolverImpl {
    settings: Settings,
    slow: bool,
    actions: Vec<Action>,
    solved_states: Table<ParetoFrontId>,
    pareto_front_builder: ParetoFrontBuilder,
    interrupt_signal: AtomicFlag,
    interrupted: bool,
}

impl StepLowerBoundSolverImpl {
    /// What the solver is set up with.
    pub closed spec fn context(&self) -> StepContext {
        StepContext { settings: self.settings, slow: self.slow, actions: self.actions@ }
    }

    /// The fronts on the stack of the solver's builder.
    pub closed spec fn stack(&self) -> Seq<Seq<ParetoValue>> {
        self.pareto_front_builder.segments()
    }

    /// The table holds, under the key of a reduced state, the name of the stored front
    /// of that state.
    pub closed spec fn table_ok(&self) -> bool {
        forall|state: ReducedData|
            state.effects.fits() && self.solved_states@.contains_key(
                #[trigger] key_of(state) as u128,
            ) ==> {
                &&& self.pareto_front_builder.holds(self.solved_states@[key_of(state) as u128])
                &&& self.pareto_front_builder.stored(self.solved_states@[key_of(state) as u128])
                    == step_front(self.context(), state)
            }
    }

    /// The builder cuts at the targets of the settings, the actions list the mask, and
    /// the table is right.
    pub closed spec fn wf(&self) -> bool {
        &&& self.pareto_front_builder.wf()
        &&& self.pareto_front_builder.caps() == (
            self.settings.max_progress,
            self.settings.max_quality,
        )
        &&& is_listing(self.actions@, self.settings.allowed_actions@)
        &&& self.table_ok()
    }

    /// Whether the solver has seen the interrupt flag set since its last query began.
    pub closed spec fn interrupted(&self) -> bool {
        self.interrupted
    }

    /// Takes note of what a read of the interrupt flag gave: the solver has seen the
    /// flag set if it had before or if this read found it set. The result says whether
    /// it has.
    fn note(&mut self, set: bool) -> (r: bool)
        ensures
            r == final(self).interrupted(),
            final(self).interrupted() == (old(self).interrupted() || set),
            final(self).wf() == old(self).wf(),
            final(self).context() == old(self).context(),
            final(self).stack() == old(self).stack(),
            final(self).solved_states == old(self).solved_states,
            final(self).pareto_front_builder == old(self).pareto_front_builder,
    {
        if set {
            self.interrupted = true;
        }
        self.interrupted
    }

    /// Reads the interrupt flag and takes note of it. The result says whether the flag
    /// was set at this read or at one before it.
    fn poll(&mut self) -> (r: bool)
        ensures
            r == final(self).interrupted(),
            old(self).interrupted() ==> r,
            final(self).wf() == old(self).wf(),
            final(self).context() == old(self).context(),
            final(self).stack() == old(self).stack(),
            final(self).solved_states == old(self).solved_states,
            final(self).pareto_front_builder == old(self).pareto_front_builder,
    {
        let set = self.interrupt_signal.is_set();
        self.note(set)
    }

    /// A solver for the settings of a craft, with or without durability, which gives
    /// up where it finds the flag set.
    pub fn new(settings: Settings, slow: bool, interrupt_signal: AtomicFlag) -> (r:
        StepLowerBoundSolverImpl)
        ensures
            r.wf(),
            r.stack().len() == 0,
            !r.interrupted(),
            relaxes(r.context(), settings, slow),
    {
        let mut mask = settings.allowed_actions.remove(Action::Observe).remove(
            Action::TricksOfTheTrade,
        );
        proof {
            assert(mask@ =~= settings.allowed_actions@.difference(
                set![Action::Observe, Action::TricksOfTheTrade],
            ));
        }
        let ghost s0 = mask@;
        if !slow {
            mask = mask.remove(Action::MasterMend).remove(Action::ImmaculateMend).remove(
                Action::Manipulation,
            ).remove(Action::WasteNot).remove(Action::WasteNot2).remove(Action::TrainedPerfection);
        }
        proof {
            assert(mask@ =~= without_if(
                s0,
                !slow,
                set![
                    Action::MasterMend,
                    Action::ImmaculateMend,
                    Action::Manipulation,
                    Action::WasteNot,
                    Action::WasteNot2,
                    Action::TrainedPerfection,
                ],
            ));
        }
        let ghost s1 = mask@;
        if mask.has(Action::WasteNot2) {
            mask = mask.remove(Action::WasteNot);
        }
        proof {
            assert(mask@ =~= without_if(s1, s1.contains(Action::WasteNot2), set![Action::WasteNot]));
        }
        let ghost s2 = mask@;
        if mask.has(Action::CarefulSynthesis) {
            mask = mask.remove(Action::BasicSynthesis);
        }
        proof {
            assert(mask@ =~= without_if(
                s2,
                s2.contains(Action::CarefulSynthesis),
                set![Action::BasicSynthesis],
            ));
        }
        let ghost s3 = mask@;
        if mask.has(Action::AdvancedTouch) && !mask.has(Action::RefinedTouch) {
            mask = mask.remove(Action::BasicTouch).remove(Action::StandardTouch);
        }
        proof {
            assert(mask@ =~= without_if(
                s3,
                s3.contains(Action::AdvancedTouch) && !s3.contains(Action::RefinedTouch),
                set![Action::BasicTouch, Action::StandardTouch],
            ));
        }
        let ghost s4 = mask@;
        if mask.has(Action::ImmaculateMend) {
            mask = mask.remove(Action::MasterMend);
        }
        proof {
            assert(mask@ =~= without_if(
                s4,
                s4.contains(Action::ImmaculateMend),
                set![Action::MasterMend],
            ));
        }
        let ghost s5 = mask@;
        if !slow && mask.has(Action::Groundwork) {
            mask = mask.remove(Action::CarefulSynthesis).remove(Action::PrudentSynthesis).remove(
                Action::BasicSynthesis,
            );
        }
        proof {
            assert(mask@ =~= without_if(
                s5,
                !slow && s5.contains(Action::Groundwork),
                set![Action::CarefulSynthesis, Action::PrudentSynthesis, Action::BasicSynthesis],
            ));
        }
        let ghost s6 = mask@;
        if !slow && mask.has(Action::PreparatoryTouch) {
            mask = mask.remove(Action::AdvancedTouch).remove(Action::PrudentTouch).remove(
                Action::StandardTouch,
            );
        }
        proof {
            assert(mask@ =~= without_if(
                s6,
                !slow && s6.contains(Action::PreparatoryTouch),
                set![Action::AdvancedTouch, Action::PrudentTouch, Action::StandardTouch],
            ));
        }
        let ghost s7 = mask@;
        if !slow && mask.has(Action::PreparatoryTouch) && !mask.has(Action::RefinedTouch) {
            mask = mask.remove(Action::BasicTouch);
        }
        proof {
            assert(mask@ =~= without_if(
                s7,
                !slow && s7.contains(Action::PreparatoryTouch) && !s7.contains(
                    Action::RefinedTouch,
                ),
                set![Action::BasicTouch],
            ));
        }
        let relaxed = Settings {
            max_cp: i16::MAX,
            max_durability: settings.max_durability,
            max_progress: settings.max_progress,
            max_quality: settings.max_quality,
            base_progress: settings.base_progress,
            base_quality: settings.base_quality,
            job_level: settings.job_level,
            allowed_actions: mask,
            adversarial: false,
        };
        StepLowerBoundSolverImpl {
            settings: relaxed,
            slow,
            actions: mask.actions(),
            solved_states: Table::new(),
            pareto_front_builder: ParetoFrontBuilder::new(
                settings.max_progress,
                settings.max_quality,
            ),
            interrupt_signal,
            interrupted: false,
        }
    }

    /// The table stays right when the store of the builder keeps what it had.
    proof fn lemma_table_kept(&self, before: &StepLowerBoundSolverImpl)
        requires
            before.table_ok(),
            self.solved_states@ == before.solved_states@,
            self.context() == before.context(),
            self.pareto_front_builder.keeps_store_of(&before.pareto_front_builder),
        ensures
            self.table_ok(),
    {
        assert forall|state: ReducedData|
            state.effects.fits() && self.solved_states@.contains_key(
                #[trigger] key_of(state) as u128,
            ) implies {
            &&& self.pareto_front_builder.holds(self.solved_states@[key_of(state) as u128])
            &&& self.pareto_front_builder.stored(self.solved_states@[key_of(state) as u128])
                == step_front(self.context(), state)
        } by {
            let id = before.solved_states@[key_of(state) as u128];
            assert(before.pareto_front_builder.holds(id));
        }
    }

    /// Solves a reduced state: its front is pushed on the stack of the builder and
    /// stored, and the table is told its name. The flag is read first, and again for
    /// every state that this one leads to; the result says whether the state is
    /// solved, which it is unless the solver has seen the flag set.
    fn solve_state(&mut self, reduced_state: ReducedState) -> (r: bool)
        requires
            old(self).wf(),
            !old(self).interrupted(),
            reduced_state@.steps_budget >= 1,
        ensures
            final(self).wf(),
            final(self).context() == old(self).context(),
            r == !final(self).interrupted(),
            r ==> final(self).stack() == old(self).stack().push(
                step_front(old(self).context(), reduced_state@),
            ),
            final(self).pareto_front_builder.keeps_store_of(&old(self).pareto_front_builder),
            r ==> final(self).solved_states@.contains_key(key_of(reduced_state@) as u128),
        decreases reduced_state@.steps_budget,
    {
        let ghost context = self.context();
        let ghost base = self.stack();
        let ghost state = reduced_state@;
        if self.poll() {
            return false;
        }
        self.pareto_front_builder.push_empty();
        proof {
            self.lemma_table_kept(old(self));
        }
        let full_state = reduced_state.to_state();
        let count = self.actions.len();
        let mut i: usize = 0;
        while i < count
            invariant
                i <= count,
                count == self.actions@.len(),
                self.wf(),
                !self.interrupted(),
                self.context() == context,
                context == old(self).context(),
                state == reduced_state@,
                state.steps_budget >= 1,
                full_state@ == expand(state),
                self.stack() == base.push(partial_front(context, state, i as nat)),
                self.pareto_front_builder.keeps_store_of(&old(self).pareto_front_builder),
            decreases count - i,
        {
            let ghost previous = partial_front(context, state, i as nat);
            let ghost before = *self;
            if !self.pareto_front_builder.is_max() {
                let action = self.actions[i];
                match full_state.use_action_overdrawing(
                    action,
                    Condition::Normal,
                    &self.settings,
                ) {
                    Ok(next) => {
                        let progress = next.progress;
                        let quality = next.quality;
                        if reduced_state.steps_budget > 1 && !next.is_final(&self.settings) {
                            let child = ReducedState::from_state(
                                next,
                                reduced_state.steps_budget - 1,
                                self.slow,
                            );
                            let key = child.key();
                            match self.solved_states.get(key) {
                                Some(id) => {
                                    self.pareto_front_builder.push_id_shifted(
                                        id,
                                        progress,
                                        quality,
                                    );
                                    proof {
                                        self.lemma_table_kept(&before);
                                    }
                                },
                                None => {
                                    if !self.solve_state(child) {
                                        return false;
                                    }
                                    let ghost solved = *self;
                                    self.pareto_front_builder.shift(progress, quality);
                                    proof {
                                        self.lemma_table_kept(&solved);
                                    }
                                },
                            }
                            let ghost middle = *self;
                            self.pareto_front_builder.merge();
                            proof {
                                self.lemma_table_kept(&middle);
                                assert(self.stack() =~= base.push(
                                    partial_front(context, state, (i + 1) as nat),
                                ));
                            }
                        } else if progress != 0 {
                            self.pareto_front_builder.push_value(
                                ParetoValue::new(progress, quality),
                            );
                            self.pareto_front_builder.merge();
                            proof {
                                self.lemma_table_kept(&before);
                                assert(self.stack() =~= base.push(
                                    partial_front(context, state, (i + 1) as nat),
                                ));
                            }
                        }
                    },
                    Err(_) => {},
                }
            }
            i = i + 1;
        }
        let ghost before = *self;
        let key = reduced_state.key();
        match self.pareto_front_builder.save() {
            Some(id) => {
                self.solved_states.insert(key, id);
                proof {
                    assert forall|other: ReducedData|
                        other.effects.fits() && self.solved_states@.contains_key(
                            #[trigger] key_of(other) as u128,
                        ) implies {
                        &&& self.pareto_front_builder.holds(
                            self.solved_states@[key_of(other) as u128],
                        )
                        &&& self.pareto_front_builder.stored(
                            self.solved_states@[key_of(other) as u128],
                        ) == step_front(self.context(), other)
                    } by {
                        other.effects.lemma_word();
                        state.effects.lemma_word();
                        if key_of(other) as u128 == key {
                            lemma_key_names(other, state);
                        } else {
                            let old_id = before.solved_states@[key_of(other) as u128];
                            assert(before.pareto_front_builder.holds(old_id));
                        }
                    }
                }
                true
            },
            // the stack holds the front of the state, so there is one to store
            None => false,
        }
    }
}

/// The quality that a state can reach within a budget of steps while progress is
/// filled, as far as the relaxed simulation of the context can tell: what the front of
/// the reduced state answers for the progress that is missing and the quality that is
/// guaranteed already, up to twice the quality target.
pub open spec fn step_bound(context: StepContext, state: StateData, steps_budget: u8) -> int {
    let settings = context.settings;
    front_bound(
        step_front(context, reduce(state, steps_budget, context.slow)),
        if state.progress >= settings.max_progress {
            0u16
        } else {
            (settings.max_progress - state.progress) as u16
        },
        state.guaranteed_quality() as u16,
        if settings.max_quality > 32767 {
            u16::MAX
        } else {
            (2 * settings.max_quality) as u16
        },
    )
}

impl StepLowerBoundSolverImpl {
    /// The quality that the state can reach within the budget of steps: see
    /// [`step_bound`]. `None` where the solver saw the interrupt flag set during the
    /// query, and only there; the solver remembers that it did.
    pub fn quality_upper_bound(&mut self, state: SimulationState, step_budget: u8) -> (r: Option<
        u16,
    >)
        requires
            old(self).wf(),
            old(self).stack().len() == 0,
            step_budget >= 1,
        ensures
            final(self).wf(),
            final(self).stack().len() == 0,
            final(self).context() == old(self).context(),
            r is None <==> final(self).interrupted(),
            r is Some ==> r->Some_0 == step_bound(old(self).context(), state@, step_budget),
    {
        self.interrupted = false;
        if self.poll() {
            return None;
        }
        let current_quality = state.guaranteed_quality();
        let missing_progress = if state.progress >= self.settings.max_progress {
            0
        } else {
            self.settings.max_progress - state.progress
        };
        let cap = if self.settings.max_quality > 32767 {
            u16::MAX
        } else {
            2 * self.settings.max_quality
        };
        let reduced_state = ReducedState::from_state(state, step_budget, self.slow);
        let key = reduced_state.key();
        let id = match self.solved_states.get(key) {
            Some(id) => id,
            None => {
                let solved = self.solve_state(reduced_state);
                let ghost middle = *self;
                self.pareto_front_builder.clear();
                proof {
                    self.lemma_table_kept(&middle);
                }
                if !solved {
                    return None;
                }
                match self.solved_states.get(key) {
                    Some(id) => id,
                    None => {
                        return Some(0);
                    },
                }
            },
        };
        let pareto_front = self.pareto_front_builder.retrieve(id);
        Some(query_front(pareto_front, missing_progress, current_quality, cap))
    }
}

/// Whether a solver finds the quality target within reach of the state under the
/// budget.
pub open spec fn reaches(context: StepContext, state: StateData, budget: u8) -> bool {
    step_bound(context, state, budget) >= context.settings.max_quality
}

/// The first budget from `high` on, doubled each time, under which the target is
/// reached, with the last budget under which it was not; or 255 where none below does.
pub open spec fn doubled(context: StepContext, state: StateData, low: u8, high: u8) -> (u8, u8)
    decreases 255 - high,
{
    if 0 < high < 255 && !reaches(context, state, high) {
        doubled(
            context,
            state,
            high,
            if high > 127 {
                255u8
            } else {
                (2 * high) as u8
            },
        )
    } else {
        (low, high)
    }
}

/// The budget that a bisection between a budget that fails and one that succeeds
/// ends at.
pub open spec fn bisected(context: StepContext, state: StateData, low: u8, high: u8) -> u8
    decreases high - low,
{
    if low + 1 < high {
        let middle = (low + (high - low) / 2) as u8;
        if reaches(context, state, middle) {
            bisected(context, state, low, middle)
        } else {
            bisected(context, state, middle, high)
        }
    } else {
        high
    }
}

/// The first budget from `high` on, one by one, under which the target is reached; or
/// 255 where none below does.
pub open spec fn scanned(context: StepContext, state: StateData, high: u8) -> u8
    decreases 255 - high,
{
    if high < 255 && !reaches(context, state, high) {
        scanned(context, state, (high + 1) as u8)
    } else {
        high
    }
}

/// A scan ends at 255 or at a budget under which the target is reached, and under no
/// budget that it has passed was it reached.
pub proof fn lemma_scanned(context: StepContext, state: StateData, high: u8)
    ensures
        scanned(context, state, high) >= high,
        scanned(context, state, high) < 255 ==> reaches(
            context,
            state,
            scanned(context, state, high),
        ),
        forall|k: u8|
            high <= k < scanned(context, state, high) ==> !#[trigger] reaches(context, state, k),
    decreases 255 - high,
{
    if high < 255 && !reaches(context, state, high) {
        lemma_scanned(context, state, (high + 1) as u8);
    }
}

/// A bisection between a budget that fails and one that succeeds ends at a budget that
/// succeeds, next to one that fails.
pub proof fn lemma_bisected(context: StepContext, state: StateData, low: u8, high: u8)
    requires
        low < high,
        low > 0 ==> !reaches(context, state, low),
        high < 255 ==> reaches(context, state, high),
    ensures
        low < bisected(context, state, low, high) <= high,
        bisected(context, state, low, high) < 255 ==> reaches(
            context,
            state,
            bisected(context, state, low, high),
        ),
        bisected(context, state, low, high) > 1 ==> !reaches(
            context,
            state,
            (bisected(context, state, low, high) - 1) as u8,
        ),
    decreases high - low,
{
    if low + 1 < high {
        let middle = (low + (high - low) / 2) as u8;
        if reaches(context, state, middle) {
            lemma_bisected(context, state, low, middle);
        } else {
            lemma_bisected(context, state, middle, high);
        }
    }
}

/// A doubling ends with a budget that fails below one that succeeds or is 255.
pub proof fn lemma_doubled(context: StepContext, state: StateData, low: u8, high: u8)
    requires
        low < high,
        low > 0 ==> !reaches(context, state, low),
    ensures
        doubled(context, state, low, high).0 < doubled(context, state, low, high).1,
        doubled(context, state, low, high).0 > 0 ==> !reaches(
            context,
            state,
            doubled(context, state, low, high).0,
        ),
        doubled(context, state, low, high).1 < 255 ==> reaches(
            context,
            state,
            doubled(context, state, low, high).1,
        ),
    decreases 255 - high,
{
    if 0 < high < 255 && !reaches(context, state, high) {
        lemma_doubled(
            context,
            state,
            high,
            if high > 127 {
                255u8
            } else {
                (2 * high) as u8
            },
        );
    }
}

/// The two solvers that bound the steps of a craft: one without durability, which is
/// asked first, and one with it, which has the last word.
pub struct StepLowerBoundSolver {
    fast_solver: StepLowerBoundSolverImpl,
    slow_solver: StepLowerBoundSolverImpl,
    interrupted: bool,
}

impl StepLowerBoundSolver {
    /// What the solver without durability is set up with.
    pub closed spec fn fast_context(&self) -> StepContext {
        self.fast_solver.context()
    }

    /// What the solver with durability is set up with.
    pub closed spec fn slow_context(&self) -> StepContext {
        self.slow_solver.context()
    }

    pub closed spec fn wf(&self) -> bool {
        &&& self.fast_solver.wf()
        &&& self.slow_solver.wf()
        &&& self.fast_solver.stack().len() == 0
        &&& self.slow_solver.stack().len() == 0
    }

    /// The bound on the steps that the state still needs: budgets are doubled from 1
    /// until the solver without durability finds the target within reach, the first
    /// such budget is found by bisection, and from it on budgets are tried one by one
    /// until the solver with durability finds the target within reach too. No
    /// budget above 255 is tried.
    pub open spec fn bound(&self, state: StateData) -> u8 {
        let (low, high) = doubled(self.fast_context(), state, 0, 1);
        scanned(self.slow_context(), state, bisected(self.fast_context(), state, low, high))
    }

    /// Whether one of the two solvers has seen the interrupt flag set since the last
    /// query began.
    pub closed spec fn interrupted(&self) -> bool {
        self.interrupted
    }

    /// The two solvers for the settings of a craft. Both give up where they find the
    /// flag set.
    pub fn new(settings: Settings, interrupt_signal: AtomicFlag) -> (r: StepLowerBoundSolver)
        ensures
            r.wf(),
            !r.interrupted(),
            relaxes(r.fast_context(), settings, false),
            relaxes(r.slow_context(), settings, true),
    {
        StepLowerBoundSolver {
            fast_solver: StepLowerBoundSolverImpl::new(settings, false, interrupt_signal.share()),
            slow_solver: StepLowerBoundSolverImpl::new(settings, true, interrupt_signal),
            interrupted: false,
        }
    }

    /// A lower bound on the additional steps that the state needs to fill both
    /// progress and quality: see [`bound`](Self::bound). Below 255, the solver with
    /// durability finds the target within reach under the bound; under the budget
    /// just below the bound, one of the two solvers does not. `None` where one of the
    /// two solvers saw the interrupt flag set during the query, and only there.
    pub fn step_lower_bound(&mut self, state: SimulationState) -> (r: Option<u8>)
        requires
            old(self).wf(),
        ensures
            final(self).wf(),
            final(self).fast_context() == old(self).fast_context(),
            final(self).slow_context() == old(self).slow_context(),
            r is None <==> final(self).interrupted(),
            r is Some ==> {
                let bound = r->Some_0;
                &&& bound == old(self).bound(state@)
                &&& bound >= 1
                &&& bound < 255 ==> reaches(old(self).slow_context(), state@, bound)
                &&& bound > 1 ==> !reaches(old(self).slow_context(), state@, (bound - 1) as u8)
                    || !reaches(old(self).fast_context(), state@, (bound - 1) as u8)
            },
    {
        let ghost fast = self.fast_context();
        let ghost slow = self.slow_context();
        let target = self.fast_solver.settings.max_quality;
        let slow_target = self.slow_solver.settings.max_quality;
        self.interrupted = false;
        let mut lo: u8 = 0;
        let mut hi: u8 = 1;
        let mut reached = false;
        while hi < 255 && !reached
            invariant
                self.wf(),
                !self.interrupted(),
                target == fast.settings.max_quality,
                self.fast_context() == fast,
                self.slow_context() == slow,
                fast == old(self).fast_context(),
                slow == old(self).slow_context(),
                lo < hi,
                reached ==> reaches(fast, state@, hi),
                doubled(fast, state@, 0, 1) == doubled(fast, state@, lo, hi),
            decreases 255 - hi + (if reached {
                0int
            } else {
                1int
            }),
        {
            match self.fast_solver.quality_upper_bound(state, hi) {
                Some(quality) => {
                    if quality < target {
                        lo = hi;
                        hi = if hi > 127 {
                            255
                        } else {
                            2 * hi
                        };
                    } else {
                        reached = true;
                    }
                },
                None => {
                    self.interrupted = true;
                    return None;
                },
            }
        }
        proof {
            lemma_doubled(fast, state@, 0, 1);
        }
        let ghost low = lo;
        let ghost high = hi;
        while lo < hi && hi - lo > 1
            invariant
                self.wf(),
                !self.interrupted(),
                target == fast.settings.max_quality,
                self.fast_context() == fast,
                self.slow_context() == slow,
                fast == old(self).fast_context(),
                slow == old(self).slow_context(),
                lo < hi,
                bisected(fast, state@, low, high) == bisected(fast, state@, lo, hi),
            decreases hi - lo,
        {
            let middle = lo + (hi - lo) / 2;
            match self.fast_solver.quality_upper_bound(state, middle) {
                Some(quality) => {
                    if quality < target {
                        lo = middle;
                    } else {
                        hi = middle;
                    }
                },
                None => {
                    self.interrupted = true;
                    return None;
                },
            }
        }
        proof {
            lemma_bisected(fast, state@, low, high);
        }
        let ghost first = hi;
        reached = false;
        while hi < 255 && !reached
            invariant
                self.wf(),
                !self.interrupted(),
                slow_target == slow.settings.max_quality,
                self.fast_context() == fast,
                self.slow_context() == slow,
                fast == old(self).fast_context(),
                slow == old(self).slow_context(),
                hi >= 1,
                hi >= first,
                reached ==> reaches(slow, state@, hi),
                scanned(slow, state@, first) == scanned(slow, state@, hi),
            decreases 255 - hi + (if reached {
                0int
            } else {
                1int
            }),
        {
            match self.slow_solver.quality_upper_bound(state, hi) {
                Some(quality) => {
                    if quality < slow_target {
                        hi = hi + 1;
                    } else {
                        reached = true;
                    }
                },
                None => {
                    self.interrupted = true;
                    return None;
                },
            }
        }
        proof {
            lemma_scanned(slow, state@, first);
        }
        Some(hi)
    }
}

} // verus!
