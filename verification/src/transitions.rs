//! What holds of every transition of the simulation.
use vstd::prelude::*;
use crate::actions::Action;
use crate::actions::Condition;
use crate::effects::EffectsData;
use crate::effects::SingleUse;
use crate::quality_upper_bound_solver::single_uses;
use crate::settings::Settings;
use crate::state::min_int;
use crate::state::ActionError;
use crate::state::StateData;

verus! {

/// A tick takes at most one from every timed counter and takes none below zero; Inner
/// Quiet and the single-use abilities are not timed and stay.
pub proof fn lemma_tick_down(e: EffectsData)
    ensures
        e.waste_not - 1 <= e.tick_down().waste_not <= e.waste_not,
        e.innovation - 1 <= e.tick_down().innovation <= e.innovation,
        e.veneration - 1 <= e.tick_down().veneration <= e.veneration,
        e.great_strides - 1 <= e.tick_down().great_strides <= e.great_strides,
        e.muscle_memory - 1 <= e.tick_down().muscle_memory <= e.muscle_memory,
        e.manipulation - 1 <= e.tick_down().manipulation <= e.manipulation,
        e.guard - 1 <= e.tick_down().guard <= e.guard,
        e.tick_down().inner_quiet == e.inner_quiet,
        e.tick_down().trained_perfection == e.trained_perfection,
        e.tick_down().heart_and_soul == e.heart_and_soul,
        e.tick_down().quick_innovation_available == e.quick_innovation_available,
        e.in_range() ==> e.tick_down().in_range(),
{
}

/// The start of a craft is within the limits of its settings.
pub proof fn lemma_initial_within(settings: Settings)
    requires
        settings.max_cp >= 0,
    ensures
        StateData::initial(settings).within(settings),
{
}

/// A transition keeps a state within the limits of the settings: CP between zero and
/// its maximum, durability at most its maximum, progress and quality at most their
/// targets, and every counter in its range, Inner Quiet at most 10 among them.
pub proof fn lemma_transition_within(
    state: StateData,
    action: Action,
    condition: Condition,
    settings: Settings,
)
    requires
        state.within(settings),
        state.use_action(action, condition, settings) is Ok,
    ensures
        state.use_action(action, condition, settings)->Ok_0.within(settings),
{
    reveal(StateData::use_action);
    let after = state.after_action(action, condition, settings);
    assert(after.effects.in_range());
    assert(after.cp >= 0);
    assert(after.within(settings));
    if !after.is_final(settings) {
        lemma_tick_down(after.effects);
        let next = after.end_step(action, state.combo, settings);
        assert(next.effects.in_range());
    }
}

/// Every state that a run of actions reaches from within the limits is within them.
pub proof fn lemma_run_within(state: StateData, actions: Seq<Action>, settings: Settings)
    requires
        state.within(settings),
        state.run(actions, settings) is Ok,
    ensures
        state.run(actions, settings)->Ok_0.within(settings),
    decreases actions.len(),
{
    if actions.len() > 0 {
        lemma_transition_within(state, actions[0], Condition::Normal, settings);
        let next = state.use_action(actions[0], Condition::Normal, settings)->Ok_0;
        lemma_run_within(next, actions.skip(1), settings);
    }
}

/// Progress never passes its target: it is the sum of what was there and what the
/// action adds, or the target where the sum reaches it.
pub proof fn lemma_progress_saturates(
    state: StateData,
    action: Action,
    condition: Condition,
    settings: Settings,
)
    requires
        state.use_action(action, condition, settings) is Ok,
    ensures
        ({
            let next = state.use_action(action, condition, settings)->Ok_0;
            let sum = state.progress + state.progress_increase(action, condition, settings);
            next.progress == min_int(settings.max_progress as int, sum)
        }),
{
    reveal(StateData::use_action);
}

/// An action that costs no durability leaves Trained Perfection in force.
pub proof fn lemma_trained_perfection_kept(
    state: StateData,
    action: Action,
    condition: Condition,
    settings: Settings,
)
    requires
        state.effects.trained_perfection == SingleUse::Active,
        action.base_durability_cost() == 0,
        state.use_action(action, condition, settings) is Ok,
    ensures
        state.use_action(action, condition, settings)->Ok_0.effects.trained_perfection
            == SingleUse::Active,
{
    reveal(StateData::use_action);
}

/// An action that costs durability uses Trained Perfection up and loses no durability
/// to its own cost.
pub proof fn lemma_trained_perfection_used(
    state: StateData,
    action: Action,
    condition: Condition,
    settings: Settings,
)
    requires
        state.effects.trained_perfection == SingleUse::Active,
        action.base_durability_cost() != 0,
        state.use_action(action, condition, settings) is Ok,
    ensures
        state.use_action(action, condition, settings)->Ok_0.effects.trained_perfection
            == SingleUse::Unavailable,
        state.after_action(action, condition, settings).durability == state.durability,
{
    reveal(StateData::use_action);
}

/// CP is short only where the state holds less than the action costs: with exactly
/// the cost the action is not refused for CP, and an action that costs nothing is
/// never refused for it.
pub proof fn lemma_cp_boundary(
    state: StateData,
    action: Action,
    condition: Condition,
    settings: Settings,
)
    ensures
        state.cp >= state.cp_cost(action, condition) ==> state.use_action(
            action,
            condition,
            settings,
        ) != Err::<StateData, ActionError>(ActionError::InsufficientCp),
        state.cp_cost(action, condition) == 0 && state.cp >= 0 ==> state.use_action(
            action,
            condition,
            settings,
        ) != Err::<StateData, ActionError>(ActionError::InsufficientCp),
{
    reveal(StateData::use_action);
}

/// An action needs the durability that it costs. With 5 left and a cost of 10 it can
/// be used only under Waste Not or an active Trained Perfection, and durability is
/// never what refuses it there: Trained Perfection keeps the 5, and Waste Not ends the
/// craft at 0.
pub proof fn lemma_durability_boundary(state: StateData, action: Action, settings: Settings)
    requires
        state.durability == 5,
        action.base_durability_cost() == 10,
    ensures
        ({
            let outcome = state.use_action(action, Condition::Normal, settings);
            let covered = state.effects.waste_not > 0 || state.effects.trained_perfection
                == SingleUse::Active;
            &&& outcome is Ok ==> covered
            &&& !covered && settings.job_level >= action.level_requirement()
                && settings.allowed_actions@.contains(action) ==> outcome == Err::<
                StateData,
                ActionError,
            >(ActionError::NoDurability)
            &&& covered && state.progress < settings.max_progress ==> outcome != Err::<
                StateData,
                ActionError,
            >(ActionError::NoDurability)
            &&& outcome is Ok && state.effects.trained_perfection == SingleUse::Active
                ==> state.after_action(action, Condition::Normal, settings).durability == 5
            &&& outcome is Ok && state.effects.trained_perfection != SingleUse::Active
                ==> outcome->Ok_0.durability == 0 && outcome->Ok_0.is_final(settings)
        }),
{
    reveal(StateData::use_action);
}

/// No action leaves less than no durability: a state with durability to spend never
/// comes out below 0.
pub proof fn lemma_durability_never_negative(
    state: StateData,
    action: Action,
    condition: Condition,
    settings: Settings,
)
    requires
        state.use_action(action, condition, settings) is Ok,
        settings.max_durability >= 0,
    ensures
        state.use_action(action, condition, settings)->Ok_0.durability >= 0,
{
    reveal(StateData::use_action);
}

/// The durability that a state still has to spend: what it holds, and what
/// Manipulation will restore.
pub open spec fn durability_in_store(state: StateData) -> int {
    state.durability + 5 * state.effects.manipulation
}

/// An action that restores durability.
pub open spec fn restores_durability(action: Action) -> bool {
    action == Action::MasterMend || action == Action::ImmaculateMend || action
        == Action::Manipulation
}

/// Every action under a Normal condition spends something: it uses up a single-use
/// ability, or else it costs CP, or else it costs 5 durability or more of what the
/// state has in store. None gives a single use back, and only one that uses one up
/// gives CP. Where nothing restores durability, none is gained.
pub proof fn lemma_action_spends(state: StateData, action: Action, settings: Settings)
    requires
        state.use_action(action, Condition::Normal, settings) is Ok,
    ensures
        state.cp >= 0,
        single_uses(state.use_action(action, Condition::Normal, settings)->Ok_0.effects)
            <= single_uses(state.effects),
        single_uses(state.use_action(action, Condition::Normal, settings)->Ok_0.effects)
            == single_uses(state.effects) ==> state.use_action(
            action,
            Condition::Normal,
            settings,
        )->Ok_0.cp <= state.cp,
        single_uses(state.use_action(action, Condition::Normal, settings)->Ok_0.effects)
            == single_uses(state.effects) ==> state.use_action(
            action,
            Condition::Normal,
            settings,
        )->Ok_0.cp < state.cp || durability_in_store(
            state.use_action(action, Condition::Normal, settings)->Ok_0,
        ) <= durability_in_store(state) - 5,
        state.effects.manipulation == 0 && !restores_durability(action) ==> state.use_action(
            action,
            Condition::Normal,
            settings,
        )->Ok_0.durability <= state.durability && state.use_action(
            action,
            Condition::Normal,
            settings,
        )->Ok_0.effects.manipulation == 0,
{
    reveal(StateData::use_action);
    let after = state.after_action(action, Condition::Normal, settings);
    let next = state.use_action(action, Condition::Normal, settings)->Ok_0;
    if !after.is_final(settings) {
        lemma_tick_down(after.effects);
    }
    if action.progress_coefficient(settings.job_level) == 0 {
        lemma_scaled_zero(
            settings.base_progress as int,
            crate::state::progress_condition_percent(Condition::Normal),
            state.progress_effect_percent(),
            100,
        );
        assert(after.progress == state.progress);
    }
}

/// A coefficient of zero leaves nothing.
pub proof fn lemma_scaled_zero(base: int, b: int, c: int, d: int)
    ensures
        crate::state::scaled(base, 0, b, c, d) == 0,
{
    assert(base * 0 * b * c * d == 0) by (nonlinear_arith);
}

/// The second state is what is left of the first after something was spent: fewer
/// single uses, or as many and less CP, or as much of both and at least 5 durability
/// less in store.
pub open spec fn spent(before: StateData, after: StateData) -> bool {
    let fewer = single_uses(after.effects) < single_uses(before.effects);
    let as_many = single_uses(after.effects) == single_uses(before.effects);
    fewer || (as_many && after.cp < before.cp) || (as_many && after.cp == before.cp
        && durability_in_store(after) <= durability_in_store(before) - 5)
}

/// What is left after two spendings is left after one.
pub proof fn lemma_spent_twice(first: StateData, second: StateData, third: StateData)
    requires
        spent(first, second),
        spent(second, third),
    ensures
        spent(first, third),
{
}

/// A run of actions spends something with every action: what it leads to has fewer
/// single uses than what it started from, or as many and less CP, or as much of both
/// and less durability in store.
pub proof fn lemma_run_spends(state: StateData, actions: Seq<Action>, settings: Settings)
    requires
        actions.len() > 0,
        state.run(actions, settings) is Ok,
    ensures
        spent(state, state.run(actions, settings)->Ok_0),
        state.cp >= 0,
    decreases actions.len(),
{
    lemma_action_spends(state, actions[0], settings);
    let next = state.use_action(actions[0], Condition::Normal, settings)->Ok_0;
    let rest = actions.skip(1);
    if rest.len() > 0 {
        lemma_run_spends(next, rest, settings);
        lemma_spent_twice(state, next, next.run(rest, settings)->Ok_0);
    } else {
        assert(next.run(rest, settings) == Ok::<StateData, ActionError>(next));
    }
}

/// A run of actions of which none restores durability, from a state without
/// Manipulation, gains no durability and leaves no Manipulation.
pub proof fn lemma_run_wears(state: StateData, actions: Seq<Action>, settings: Settings)
    requires
        state.effects.manipulation == 0,
        forall|i: int| 0 <= i < actions.len() ==> !restores_durability(#[trigger] actions[i]),
        state.run(actions, settings) is Ok,
    ensures
        state.run(actions, settings)->Ok_0.durability <= state.durability,
        state.run(actions, settings)->Ok_0.effects.manipulation == 0,
    decreases actions.len(),
{
    if actions.len() > 0 {
        lemma_action_spends(state, actions[0], settings);
        let next = state.use_action(actions[0], Condition::Normal, settings)->Ok_0;
        let rest = actions.skip(1);
        assert forall|i: int| 0 <= i < rest.len() implies !restores_durability(
            #[trigger] rest[i],
        ) by {
            assert(rest[i] == actions[i + 1]);
        }
        lemma_run_wears(next, rest, settings);
    }
}

/// An action of the search for progress: one that adds progress, saves or restores
/// durability, or serves one that does.
pub open spec fn is_progress_action(action: Action) -> bool {
    ||| action == Action::BasicSynthesis
    ||| action == Action::Veneration
    ||| action == Action::MuscleMemory
    ||| action == Action::CarefulSynthesis
    ||| action == Action::Groundwork
    ||| action == Action::PrudentSynthesis
    ||| action == Action::IntensiveSynthesis
    ||| action == Action::MasterMend
    ||| action == Action::WasteNot
    ||| action == Action::WasteNot2
    ||| action == Action::Manipulation
    ||| action == Action::ImmaculateMend
    ||| action == Action::TrainedPerfection
    ||| action == Action::TricksOfTheTrade
    ||| action == Action::HeartAndSoul
}

/// Two states are the same to the search for progress: they agree in all but
/// progress, quality and the effects that only quality needs.
pub open spec fn same_for_progress(a: StateData, b: StateData) -> bool {
    &&& a.cp == b.cp
    &&& a.durability == b.durability
    &&& a.combo == b.combo
    &&& a.effects.waste_not == b.effects.waste_not
    &&& a.effects.veneration == b.effects.veneration
    &&& a.effects.muscle_memory == b.effects.muscle_memory
    &&& a.effects.manipulation == b.effects.manipulation
    &&& a.effects.trained_perfection == b.effects.trained_perfection
    &&& a.effects.heart_and_soul == b.effects.heart_and_soul
}

/// Two settings that differ in the adversary at the most.
pub open spec fn same_but_adversary(a: Settings, b: Settings) -> bool {
    a == (Settings { adversarial: a.adversarial, ..b })
}

/// What an action of the search for progress does to a state depends on nothing but
/// what the search for progress looks at: where it can be used on one of two states
/// that are the same to the search, it can be used on the other, unless that one is
/// over; it adds the same progress to both; and where it ends neither craft, it leaves
/// the two the same to the search.
pub proof fn lemma_progress_agrees(
    actual: StateData,
    model: StateData,
    action: Action,
    settings: Settings,
    relaxed: Settings,
)
    requires
        same_but_adversary(settings, relaxed),
        same_for_progress(actual, model),
        is_progress_action(action),
        !actual.is_final(settings),
        model.use_action(action, Condition::Normal, relaxed) is Ok,
    ensures
        actual.use_action(action, Condition::Normal, settings) is Ok,
        ({
            let next = actual.use_action(action, Condition::Normal, settings)->Ok_0;
            let other = model.use_action(action, Condition::Normal, relaxed)->Ok_0;
            let gain = model.progress_increase(action, Condition::Normal, relaxed);
            &&& next.progress == min_int(settings.max_progress as int, actual.progress + gain)
            &&& other.progress == min_int(settings.max_progress as int, model.progress + gain)
            &&& next.progress < settings.max_progress && !other.is_final(relaxed)
                ==> !next.is_final(settings) && same_for_progress(next, other)
            &&& (action == Action::HeartAndSoul || action == Action::TricksOfTheTrade) ==> gain == 0
            &&& action != Action::HeartAndSoul && !next.is_final(settings) ==> next.combo
                == crate::actions::Combo::NoCombo
        }),
{
    reveal(StateData::use_action);
    if action.progress_coefficient(settings.job_level) == 0 {
        lemma_scaled_zero(
            settings.base_progress as int,
            crate::state::progress_condition_percent(Condition::Normal),
            model.progress_effect_percent(),
            100,
        );
    }
}

/// A run of actions in two parts leads where the second part leads from where the
/// first part led.
pub proof fn lemma_run_append(
    state: StateData,
    first: Seq<Action>,
    second: Seq<Action>,
    settings: Settings,
)
    requires
        state.run(first, settings) is Ok,
    ensures
        state.run(first + second, settings) == state.run(first, settings)->Ok_0.run(
            second,
            settings,
        ),
    decreases first.len(),
{
    if first.len() == 0 {
        assert(first + second =~= second);
    } else {
        let next = state.use_action(first[0], Condition::Normal, settings)->Ok_0;
        assert((first + second)[0] == first[0]);
        assert((first + second).skip(1) =~= first.skip(1) + second);
        lemma_run_append(next, first.skip(1), second, settings);
    }
}

/// A run of actions that can be used to its end can be used up to any point, and goes
/// on from there.
pub proof fn lemma_run_split(
    state: StateData,
    first: Seq<Action>,
    second: Seq<Action>,
    settings: Settings,
)
    requires
        state.run(first + second, settings) is Ok,
    ensures
        state.run(first, settings) is Ok,
        state.run(first + second, settings) == state.run(first, settings)->Ok_0.run(
            second,
            settings,
        ),
    decreases first.len(),
{
    if first.len() == 0 {
        assert(first + second =~= second);
    } else {
        assert((first + second)[0] == first[0]);
        assert((first + second).skip(1) =~= first.skip(1) + second);
        let next = state.use_action(first[0], Condition::Normal, settings)->Ok_0;
        lemma_run_split(next, first.skip(1), second, settings);
    }
}

/// Heart and Soul takes no step: it costs no durability and adds no progress.
pub proof fn lemma_heart_and_soul_waits(state: StateData, settings: Settings)
    requires
        state.use_action(Action::HeartAndSoul, Condition::Normal, settings) is Ok,
    ensures
        ({
            let next = state.use_action(Action::HeartAndSoul, Condition::Normal, settings)->Ok_0;
            &&& next.durability == state.durability
            &&& next.progress == state.progress
            &&& !state.is_final(settings)
            &&& !next.is_final(settings)
        }),
{
    reveal(StateData::use_action);
    lemma_scaled_zero(
        settings.base_progress as int,
        crate::state::progress_condition_percent(Condition::Normal),
        state.progress_effect_percent(),
        100,
    );
}

} // verus!
