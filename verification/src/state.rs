//! The state of a craft and the transition that one action makes.
use vstd::prelude::*;
use crate::actions::half_up_if;
use crate::actions::Action;
use crate::actions::Combo;
use crate::actions::Condition;
use crate::effects::tick;
use crate::effects::Effects;
use crate::effects::EffectsData;
use crate::effects::SingleUse;
use crate::settings::Settings;

verus! {

/// Why an action cannot be used on a state.
#[derive(Clone, Copy, Debug, PartialEq, Eq, Hash, Structural)]
pub enum ActionError {
    /// The job level is below the level of the action.
    NotUnlocked,
    /// The state holds less CP than the action costs.
    InsufficientCp,
    /// The craft is over, with no durability left or with progress complete; or the
    /// action costs more durability than is left.
    NoDurability,
    /// The action needs a combo slot that the last action did not leave.
    ComboMissing,
    /// The settings leave the action out, or an effect or the condition that it
    /// depends on is not there.
    ActionDisabled,
    /// A single-use ability has been used before.
    SingleUseConsumed,
}

/// The state of a craft as plain values.
pub struct StateData {
    pub cp: i16,
    pub durability: i8,
    pub progress: u16,
    pub quality: u16,
    pub unreliable_quality: u16,
    pub effects: EffectsData,
    pub combo: Combo,
}

/// The state of a craft.
///
/// `quality` is what has been reached if the condition of the last unguarded step
/// was not Poor; `unreliable_quality` is the part of it that a Poor condition on that
/// step takes away. What holds against every run of conditions is the difference.
#[derive(Clone, Copy, Debug, PartialEq, Eq, Hash, Structural)]
pub struct SimulationState {
    pub cp: i16,
    pub durability: i8,
    pub progress: u16,
    pub quality: u16,
    pub unreliable_quality: u16,
    pub effects: Effects,
    pub combo: Combo,
}

pub open spec fn min_int(a: int, b: int) -> int {
    if a <= b {
        a
    } else {
        b
    }
}

pub open spec fn max_int(a: int, b: int) -> int {
    if a >= b {
        a
    } else {
        b
    }
}

/// A base value times four percentages, rounded down once at the end.
pub open spec fn scaled(base: int, a: int, b: int, c: int, d: int) -> int {
    base * a * b * c * d / 100_000_000
}

/// The percentage by which a condition scales progress.
pub open spec fn progress_condition_percent(condition: Condition) -> int {
    if condition == Condition::Malleable {
        150
    } else {
        100
    }
}

/// The percentage by which a condition scales quality.
pub open spec fn quality_condition_percent(condition: Condition) -> int {
    match condition {
        Condition::Good => 150,
        Condition::Excellent => 400,
        Condition::Poor => 50,
        _ => 100,
    }
}

/// Whether the condition lets the three actions through that wait for a good one.
pub open spec fn is_good_or_excellent(condition: Condition) -> bool {
    condition == Condition::Good || condition == Condition::Excellent
}

/// Whether the action is one of the three that need a Good or Excellent condition,
/// or Heart and Soul in its place.
pub open spec fn needs_good_condition(action: Action) -> bool {
    action == Action::IntensiveSynthesis || action == Action::PreciseTouch || action
        == Action::TricksOfTheTrade
}

impl StateData {
    /// The craft is over: durability is used up or progress is complete.
    pub open spec fn is_final(self, settings: Settings) -> bool {
        self.durability <= 0 || self.progress >= settings.max_progress
    }

    /// The quality that holds against every run of conditions.
    pub open spec fn guaranteed_quality(self) -> int {
        max_int(0, self.quality - self.unreliable_quality)
    }

    /// Every resource is within the limits of the settings and every counter within
    /// its range.
    pub open spec fn within(self, settings: Settings) -> bool {
        &&& 0 <= self.cp <= settings.max_cp
        &&& self.durability <= settings.max_durability
        &&& self.progress <= settings.max_progress
        &&& self.quality <= settings.max_quality
        &&& self.unreliable_quality <= self.quality
        &&& self.effects.in_range()
    }

    /// The state at the start of a craft.
    pub open spec fn initial(settings: Settings) -> StateData {
        StateData {
            cp: settings.max_cp,
            durability: settings.max_durability,
            progress: 0,
            quality: 0,
            unreliable_quality: 0,
            effects: EffectsData {
                guard: if settings.adversarial {
                    1u8
                } else {
                    0u8
                },
                ..EffectsData::initial()
            },
            combo: Combo::SynthesisBegin,
        }
    }

    /// The CP that the action costs here: the combo price, halved and rounded up under
    /// a Pliant condition.
    pub open spec fn cp_cost(self, action: Action, condition: Condition) -> int {
        half_up_if(action.combo_cp_cost(self.combo) as int, condition == Condition::Pliant)
    }

    /// The progress coefficient of the action here: Groundwork works at half strength
    /// when less durability is left than it costs. A craft refuses the action there;
    /// only [`use_action_overdrawing`](Self::use_action_overdrawing) gets this far.
    pub open spec fn progress_coefficient(
        self,
        action: Action,
        condition: Condition,
        settings: Settings,
    ) -> int {
        let full = action.progress_coefficient(settings.job_level) as int;
        if action == Action::Groundwork && self.durability < action.durability_cost_under(
            self.effects,
            condition,
        ) {
            full / 2
        } else {
            full
        }
    }

    /// The percentage by which the effects scale progress: Veneration adds a half,
    /// Muscle Memory doubles.
    pub open spec fn progress_effect_percent(self) -> int {
        100 + (if self.effects.veneration > 0 {
            50int
        } else {
            0int
        }) + (if self.effects.muscle_memory > 0 {
            100int
        } else {
            0int
        })
    }

    /// The progress that the action adds before it is capped.
    pub open spec fn progress_increase(
        self,
        action: Action,
        condition: Condition,
        settings: Settings,
    ) -> int {
        scaled(
            settings.base_progress as int,
            self.progress_coefficient(action, condition, settings),
            progress_condition_percent(condition),
            self.progress_effect_percent(),
            100,
        )
    }

    /// The quality coefficient of the action here: Byregot's Blessing gains a fifth
    /// for every stack of Inner Quiet.
    pub open spec fn quality_coefficient(self, action: Action) -> int {
        if action == Action::ByregotsBlessing {
            100 + 20 * self.effects.inner_quiet
        } else {
            action.base_quality_increase() as int
        }
    }

    /// The percentage by which the timed effects scale quality: Innovation adds a
    /// half, Great Strides doubles.
    pub open spec fn quality_effect_percent(self) -> int {
        100 + (if self.effects.innovation > 0 {
            50int
        } else {
            0int
        }) + (if self.effects.great_strides > 0 {
            100int
        } else {
            0int
        })
    }

    /// The quality that the action adds under the condition before it is capped.
    /// Trained Eye fills quality whatever the condition.
    pub open spec fn quality_increase(
        self,
        action: Action,
        condition: Condition,
        settings: Settings,
    ) -> int {
        if action == Action::TrainedEye {
            settings.max_quality as int
        } else {
            scaled(
                settings.base_quality as int,
                self.quality_coefficient(action),
                quality_condition_percent(condition),
                self.quality_effect_percent(),
                100 + 10 * self.effects.inner_quiet,
            )
        }
    }

    /// What the action itself asks of the state, once level, mask, CP and an unfinished
    /// craft are given.
    pub open spec fn check_action(self, action: Action, condition: Condition) -> Option<
        ActionError,
    > {
        if action.required_combo().is_some() && action.required_combo() != Some(self.combo) {
            Some(ActionError::ComboMissing)
        } else if needs_good_condition(action) && !is_good_or_excellent(condition)
            && self.effects.heart_and_soul != SingleUse::Active {
            Some(ActionError::ActionDisabled)
        } else if action == Action::ByregotsBlessing && self.effects.inner_quiet == 0 {
            Some(ActionError::ActionDisabled)
        } else if action == Action::TrainedFinesse && self.effects.inner_quiet < 10 {
            Some(ActionError::ActionDisabled)
        } else if (action == Action::PrudentTouch || action == Action::PrudentSynthesis)
            && self.effects.waste_not > 0 {
            Some(ActionError::ActionDisabled)
        } else if action == Action::HeartAndSoul && self.effects.heart_and_soul
            != SingleUse::Available {
            Some(ActionError::SingleUseConsumed)
        } else if action == Action::QuickInnovation && !self.effects.quick_innovation_available {
            Some(ActionError::SingleUseConsumed)
        } else if action == Action::QuickInnovation && self.effects.innovation > 0 {
            Some(ActionError::ActionDisabled)
        } else if action == Action::TrainedPerfection && self.effects.trained_perfection
            != SingleUse::Available {
            Some(ActionError::SingleUseConsumed)
        } else {
            None
        }
    }

    /// The first reason, in the order of the checks, why the action cannot be used;
    /// `None` where it can. An action needs the durability that it costs.
    pub open spec fn check(self, action: Action, condition: Condition, settings: Settings) -> Option<
        ActionError,
    > {
        self.check_with(action, condition, settings, false)
    }

    /// The first reason, in the order of the checks, why the action cannot be used;
    /// `None` where it can. With `overdraw`, a craft that is not over refuses no action
    /// for the durability that it costs.
    pub open spec fn check_with(
        self,
        action: Action,
        condition: Condition,
        settings: Settings,
        overdraw: bool,
    ) -> Option<ActionError> {
        if settings.job_level < action.level_requirement() {
            Some(ActionError::NotUnlocked)
        } else if !settings.allowed_actions@.contains(action) {
            Some(ActionError::ActionDisabled)
        } else if self.is_final(settings) || (!overdraw && self.durability
            < action.durability_cost_under(self.effects, condition)) {
            Some(ActionError::NoDurability)
        } else if self.cp < self.cp_cost(action, condition) {
            Some(ActionError::InsufficientCp)
        } else {
            self.check_action(action, condition)
        }
    }

    /// Quality and unreliable quality after an increase of `normal` under the condition
    /// of the step, which under a Poor condition would have been `poor`.
    ///
    /// Without the adversary quality grows by the increase. With it, what is
    /// guaranteed grows by the increase of a Poor step and by as much of the rest as
    /// the step before had left at risk; the rest of this step is at risk in turn,
    /// unless the step is guarded. Both values are capped by the quality target.
    pub open spec fn quality_after(self, normal: int, poor: int, settings: Settings) -> (int, int) {
        if !settings.adversarial {
            (min_int(settings.max_quality as int, self.quality + normal), self.unreliable_quality as int)
        } else {
            let at_risk = if self.effects.guard == 0 && normal != 0 {
                max_int(0, max_int(0, normal - poor) - self.unreliable_quality)
            } else {
                0
            };
            let reached = self.guaranteed_quality() + normal;
            let guaranteed = min_int(settings.max_quality as int, reached - at_risk);
            let quality = min_int(settings.max_quality as int, reached);
            (quality, quality - guaranteed)
        }
    }

    /// The effects right after the action, before the step ends: what the action
    /// uses up, and the Inner Quiet that a touch builds.
    pub open spec fn effects_used(
        self,
        action: Action,
        condition: Condition,
        settings: Settings,
    ) -> EffectsData {
        let e = self.effects;
        let raises_progress = self.progress_increase(action, condition, settings) != 0;
        let raises_quality = self.quality_increase(action, condition, settings) != 0;
        EffectsData {
            trained_perfection: if action.base_durability_cost() != 0 && e.trained_perfection
                == SingleUse::Active {
                SingleUse::Unavailable
            } else {
                e.trained_perfection
            },
            muscle_memory: if raises_progress {
                0
            } else {
                e.muscle_memory
            },
            great_strides: if raises_quality {
                0
            } else {
                e.great_strides
            },
            inner_quiet: if !raises_quality {
                e.inner_quiet
            } else if action == Action::ByregotsBlessing {
                0
            } else {
                min_int(10, e.inner_quiet + action.inner_quiet_gain()) as u8
            },
            heart_and_soul: if needs_good_condition(action) && !is_good_or_excellent(condition) {
                SingleUse::Unavailable
            } else {
                e.heart_and_soul
            },
            ..e
        }
    }

    /// The state right after the action, before the step ends.
    pub open spec fn after_action(
        self,
        action: Action,
        condition: Condition,
        settings: Settings,
    ) -> StateData {
        let spent = self.cp - self.cp_cost(action, condition);
        let worn = self.durability - action.durability_cost_under(self.effects, condition);
        let (quality, unreliable_quality) = self.quality_after(
            self.quality_increase(action, condition, settings),
            self.quality_increase(action, Condition::Poor, settings),
            settings,
        );
        StateData {
            cp: if action == Action::TricksOfTheTrade {
                min_int(settings.max_cp as int, spent + 20) as i16
            } else {
                spent as i16
            },
            durability: if action == Action::MasterMend {
                min_int(settings.max_durability as int, worn + 30) as i8
            } else if action == Action::ImmaculateMend {
                settings.max_durability
            } else {
                worn as i8
            },
            progress: min_int(
                settings.max_progress as int,
                self.progress + self.progress_increase(action, condition, settings),
            ) as u16,
            quality: quality as u16,
            unreliable_quality: unreliable_quality as u16,
            effects: self.effects_used(action, condition, settings),
            combo: self.combo,
        }
    }

    /// The effects that the action leaves in force for the steps to come.
    pub open spec fn effects_started(effects: EffectsData, action: Action) -> EffectsData {
        match action {
            Action::WasteNot => EffectsData { waste_not: 4, ..effects },
            Action::WasteNot2 => EffectsData { waste_not: 8, ..effects },
            Action::Veneration => EffectsData { veneration: 4, ..effects },
            Action::Innovation => EffectsData { innovation: 4, ..effects },
            Action::GreatStrides => EffectsData { great_strides: 3, ..effects },
            Action::MuscleMemory => EffectsData { muscle_memory: 5, ..effects },
            Action::Manipulation => EffectsData { manipulation: 8, ..effects },
            Action::TrainedPerfection => EffectsData {
                trained_perfection: SingleUse::Active,
                ..effects
            },
            Action::HeartAndSoul => EffectsData { heart_and_soul: SingleUse::Active, ..effects },
            Action::QuickInnovation => EffectsData {
                innovation: 1,
                quick_innovation_available: false,
                ..effects
            },
            _ => effects,
        }
    }

    /// The end of the step, for a state that the action has not finished: Manipulation
    /// that was in force before the action restores 5 durability, the timed effects
    /// tick, the effects of the action begin, and the combo slot is set. An action that
    /// takes no step leaves durability, timers and combo slot alone.
    pub open spec fn end_step(self, action: Action, before: Combo, settings: Settings) -> StateData {
        if action.ticks_effects() {
            StateData {
                durability: if self.effects.manipulation > 0 && action != Action::Manipulation {
                    min_int(settings.max_durability as int, self.durability + 5) as i8
                } else {
                    self.durability
                },
                effects: Self::effects_started(self.effects.tick_down(), action),
                combo: action.to_combo(before),
                ..self
            }
        } else {
            StateData { effects: Self::effects_started(self.effects, action), ..self }
        }
    }

    /// The state that a legal action leads to.
    pub open spec fn apply(self, action: Action, condition: Condition, settings: Settings) -> StateData {
        let after = self.after_action(action, condition, settings);
        if after.is_final(settings) {
            after
        } else {
            after.end_step(action, self.combo, settings)
        }
    }

    /// The transition: the next state, or the reason why the action cannot be used.
    #[verifier::opaque]
    pub open spec fn use_action(
        self,
        action: Action,
        condition: Condition,
        settings: Settings,
    ) -> Result<StateData, ActionError> {
        match self.check(action, condition, settings) {
            Some(error) => Err(error),
            None => Ok(self.apply(action, condition, settings)),
        }
    }

    /// The transition as a bound on steps counts it. With any durability left an
    /// action is used even where it costs more than is left: Groundwork then works at
    /// half strength, and the craft ends below 0. No craft goes this way; a count of
    /// steps that allows for it is at most the count of a craft.
    #[verifier::opaque]
    pub open spec fn use_action_overdrawing(
        self,
        action: Action,
        condition: Condition,
        settings: Settings,
    ) -> Result<StateData, ActionError> {
        match self.check_with(action, condition, settings, true) {
            Some(error) => Err(error),
            None => Ok(self.apply(action, condition, settings)),
        }
    }

    /// The state after a run of actions under a Normal condition in which an action
    /// that cannot be used is passed over.
    pub open spec fn run_over_errors(self, actions: Seq<Action>, settings: Settings) -> StateData
        decreases actions.len(),
    {
        if actions.len() == 0 {
            self
        } else {
            match self.use_action(actions[0], Condition::Normal, settings) {
                Ok(next) => next.run_over_errors(actions.skip(1), settings),
                Err(error) => self.run_over_errors(actions.skip(1), settings),
            }
        }
    }

    /// For each action of such a run, whether it was used or why not.
    pub open spec fn errors(self, actions: Seq<Action>, settings: Settings) -> Seq<
        Result<(), ActionError>,
    >
        decreases actions.len(),
    {
        if actions.len() == 0 {
            Seq::empty()
        } else {
            match self.use_action(actions[0], Condition::Normal, settings) {
                Ok(next) => seq![Ok(())] + next.errors(actions.skip(1), settings),
                Err(error) => seq![Err(error)] + self.errors(actions.skip(1), settings),
            }
        }
    }

    /// The state after a run of actions under a Normal condition, or the first error.
    pub open spec fn run(self, actions: Seq<Action>, settings: Settings) -> Result<
        StateData,
        ActionError,
    >
        decreases actions.len(),
    {
        if actions.len() == 0 {
            Ok(self)
        } else {
            match self.use_action(actions[0], Condition::Normal, settings) {
                Ok(next) => next.run(actions.skip(1), settings),
                Err(error) => Err(error),
            }
        }
    }
}

/// The views of the two outcomes of a transition.
pub open spec fn outcome_view(outcome: Result<SimulationState, ActionError>) -> Result<
    StateData,
    ActionError,
> {
    match outcome {
        Ok(state) => Ok(state@),
        Err(error) => Err(error),
    }
}

fn scale(base: u16, a: u16, b: u16, c: u16, d: u16) -> (r: u32)
    requires
        a <= 400,
        b <= 400,
        c <= 250,
        d <= 250,
    ensures
        r == scaled(base as int, a as int, b as int, c as int, d as int),
{
    assert(base * a <= 26_214_000) by (nonlinear_arith)
        requires
            base <= 65535,
            a <= 400,
    ;
    let x1: u64 = (base as u64) * (a as u64);
    assert(x1 * b <= 10_485_600_000) by (nonlinear_arith)
        requires
            x1 <= 26_214_000,
            b <= 400,
    ;
    let x2: u64 = x1 * (b as u64);
    assert(x2 * c <= 2_621_400_000_000) by (nonlinear_arith)
        requires
            x2 <= 10_485_600_000,
            c <= 250,
    ;
    let x3: u64 = x2 * (c as u64);
    assert(x3 * d <= 655_350_000_000_000) by (nonlinear_arith)
        requires
            x3 <= 2_621_400_000_000,
            d <= 250,
    ;
    let x4: u64 = x3 * (d as u64);
    (x4 / 100_000_000) as u32
}

impl Action {
    /// The progress that the action adds to the state before it is capped: the base
    /// progress of the crafter times the coefficient of the action, times 1.5 under
    /// a Malleable condition, plus a half under Veneration and as much again under
    /// Muscle Memory, rounded down.
    pub fn progress_increase(
        self,
        state: &SimulationState,
        settings: &Settings,
        condition: Condition,
    ) -> (r: u32)
        ensures
            r == state@.progress_increase(self, condition, *settings),
    {
        let full = self.progress_coefficient(settings.job_level);
        let coefficient = if matches!(self, Action::Groundwork) && state.durability
            < self.durability_cost(&state.effects, condition) {
            full / 2
        } else {
            full
        };
        let condition_percent: u16 = if matches!(condition, Condition::Malleable) {
            150
        } else {
            100
        };
        let mut effect_percent: u16 = 100;
        if state.effects.veneration() > 0 {
            effect_percent = effect_percent + 50;
        }
        if state.effects.muscle_memory() > 0 {
            effect_percent = effect_percent + 100;
        }
        scale(settings.base_progress, coefficient, condition_percent, effect_percent, 100)
    }

    /// The quality that the action adds to the state under the condition before it
    /// is capped: the base quality of the crafter times the coefficient of the action,
    /// times the factor of the condition, plus a tenth for every stack of Inner Quiet,
    /// plus a half under Innovation and as much again under Great Strides, rounded down.
    pub fn quality_increase(
        self,
        state: &SimulationState,
        settings: &Settings,
        condition: Condition,
    ) -> (r: u32)
        ensures
            r == state@.quality_increase(self, condition, *settings),
    {
        if matches!(self, Action::TrainedEye) {
            return settings.max_quality as u32;
        }
        let inner_quiet = state.effects.inner_quiet() as u16;
        let coefficient: u16 = if matches!(self, Action::ByregotsBlessing) {
            100 + 20 * inner_quiet
        } else {
            self.base_quality_increase()
        };
        let condition_percent: u16 = match condition {
            Condition::Good => 150,
            Condition::Excellent => 400,
            Condition::Poor => 50,
            _ => 100,
        };
        let mut effect_percent: u16 = 100;
        if state.effects.innovation() > 0 {
            effect_percent = effect_percent + 50;
        }
        if state.effects.great_strides() > 0 {
            effect_percent = effect_percent + 100;
        }
        scale(
            settings.base_quality,
            coefficient,
            condition_percent,
            effect_percent,
            100 + 10 * inner_quiet,
        )
    }
}

fn least(a: i32, b: i32) -> (r: i32)
    ensures
        r == min_int(a as int, b as int),
{
    if a <= b {
        a
    } else {
        b
    }
}

impl SimulationState {
    pub open spec fn view(self) -> StateData {
        StateData {
            cp: self.cp,
            durability: self.durability,
            progress: self.progress,
            quality: self.quality,
            unreliable_quality: self.unreliable_quality,
            effects: self.effects@,
            combo: self.combo,
        }
    }

    /// The state at the start of a craft: full CP and durability, nothing done, the
    /// first step guarded where the settings are adversarial.
    pub fn new(settings: &Settings) -> (r: SimulationState)
        ensures
            r@ == StateData::initial(*settings),
    {
        let guard: u8 = if settings.adversarial {
            1
        } else {
            0
        };
        SimulationState {
            cp: settings.max_cp,
            durability: settings.max_durability,
            progress: 0,
            quality: 0,
            unreliable_quality: 0,
            effects: Effects::new().with_guard(guard),
            combo: Combo::SynthesisBegin,
        }
    }

    /// Whether the craft is over: durability is used up or progress is complete.
    pub fn is_final(&self, settings: &Settings) -> (r: bool)
        ensures
            r == self@.is_final(*settings),
    {
        self.durability <= 0 || self.progress >= settings.max_progress
    }

    /// The quality that holds against every run of conditions: quality less what is
    /// unreliable of it.
    pub fn guaranteed_quality(&self) -> (r: u16)
        ensures
            r == self@.guaranteed_quality(),
    {
        if self.quality >= self.unreliable_quality {
            self.quality - self.unreliable_quality
        } else {
            0
        }
    }

    /// The CP that the action costs on this state under the condition.
    pub fn cp_cost(&self, action: Action, condition: Condition) -> (r: i16)
        ensures
            r == self@.cp_cost(action, condition),
            0 <= r <= 250,
    {
        let cost = action.combo_cp_cost(self.combo);
        if matches!(condition, Condition::Pliant) {
            (cost + 1) / 2
        } else {
            cost
        }
    }

    fn check_action(&self, action: Action, condition: Condition) -> (r: Option<ActionError>)
        ensures
            r == self@.check_action(action, condition),
    {
        let good = matches!(condition, Condition::Good | Condition::Excellent);
        match action.required_combo() {
            Some(combo) => {
                if combo != self.combo {
                    return Some(ActionError::ComboMissing);
                }
            },
            None => {},
        }
        match action {
            Action::IntensiveSynthesis | Action::PreciseTouch | Action::TricksOfTheTrade => {
                if !good && self.effects.heart_and_soul() != SingleUse::Active {
                    return Some(ActionError::ActionDisabled);
                }
            },
            Action::ByregotsBlessing => {
                if self.effects.inner_quiet() == 0 {
                    return Some(ActionError::ActionDisabled);
                }
            },
            Action::TrainedFinesse => {
                if self.effects.inner_quiet() < 10 {
                    return Some(ActionError::ActionDisabled);
                }
            },
            Action::PrudentTouch | Action::PrudentSynthesis => {
                if self.effects.waste_not() > 0 {
                    return Some(ActionError::ActionDisabled);
                }
            },
            Action::HeartAndSoul => {
                if self.effects.heart_and_soul() != SingleUse::Available {
                    return Some(ActionError::SingleUseConsumed);
                }
            },
            Action::QuickInnovation => {
                if !self.effects.quick_innovation_available() {
                    return Some(ActionError::SingleUseConsumed);
                }
                if self.effects.innovation() > 0 {
                    return Some(ActionError::ActionDisabled);
                }
            },
            Action::TrainedPerfection => {
                if self.effects.trained_perfection() != SingleUse::Available {
                    return Some(ActionError::SingleUseConsumed);
                }
            },
            _ => {},
        }
        None
    }

    fn quality_after(&self, normal: u32, poor: u32, settings: &Settings) -> (r: (u16, u16))
        ensures
            (r.0 as int, r.1 as int) == self@.quality_after(normal as int, poor as int, *settings),
    {
        let cap = settings.max_quality as u64;
        if !settings.adversarial {
            let sum = self.quality as u64 + normal as u64;
            let quality = if sum < cap {
                sum
            } else {
                cap
            };
            (quality as u16, self.unreliable_quality)
        } else {
            let at_risk: u64 = if self.effects.guard() == 0 && normal != 0 {
                let rest: u64 = if normal > poor {
                    (normal - poor) as u64
                } else {
                    0
                };
                if rest > self.unreliable_quality as u64 {
                    rest - self.unreliable_quality as u64
                } else {
                    0
                }
            } else {
                0
            };
            let reached: u64 = self.guaranteed_quality() as u64 + normal as u64;
            let safe: u64 = if reached >= at_risk {
                reached - at_risk
            } else {
                0
            };
            let guaranteed = if safe < cap {
                safe
            } else {
                cap
            };
            let quality = if reached < cap {
                reached
            } else {
                cap
            };
            (quality as u16, (quality - guaranteed) as u16)
        }
    }

    fn effects_used(
        &self,
        action: Action,
        condition: Condition,
        raises_progress: bool,
        raises_quality: bool,
    ) -> (r: Effects)
        ensures
            forall|settings: Settings|
                raises_progress == (self@.progress_increase(action, condition, settings) != 0)
                    && raises_quality == (self@.quality_increase(action, condition, settings)
                    != 0) ==> r@ == #[trigger] self@.effects_used(action, condition, settings),
    {
        let mut effects = self.effects;
        if action.base_durability_cost() != 0 && effects.trained_perfection()
            == SingleUse::Active {
            effects.set_trained_perfection(SingleUse::Unavailable);
        }
        if raises_progress {
            effects.set_muscle_memory(0);
        }
        if raises_quality {
            effects.set_great_strides(0);
            if matches!(action, Action::ByregotsBlessing) {
                effects.set_inner_quiet(0);
            } else {
                let stacks = effects.inner_quiet() + action.inner_quiet_gain();
                effects.set_inner_quiet(
                    if stacks < 10 {
                        stacks
                    } else {
                        10
                    },
                );
            }
        }
        let good = matches!(condition, Condition::Good | Condition::Excellent);
        if !good && matches!(
            action,
            Action::IntensiveSynthesis | Action::PreciseTouch | Action::TricksOfTheTrade
        ) {
            effects.set_heart_and_soul(SingleUse::Unavailable);
        }
        effects
    }

    fn after_action(&self, action: Action, condition: Condition, settings: &Settings) -> (r:
        SimulationState)
        requires
            self.durability > 0,
            self.cp >= self@.cp_cost(action, condition),
        ensures
            r@ == self@.after_action(action, condition, *settings),
    {
        let spent: i32 = self.cp as i32 - self.cp_cost(action, condition) as i32;
        let worn: i32 = self.durability as i32 - action.durability_cost(
            &self.effects,
            condition,
        ) as i32;
        let progress_increase = action.progress_increase(self, settings, condition);
        let normal = action.quality_increase(self, settings, condition);
        let poor = action.quality_increase(self, settings, Condition::Poor);
        let (quality, unreliable_quality) = self.quality_after(normal, poor, settings);
        let progress = {
            let sum = self.progress as u64 + progress_increase as u64;
            if sum < settings.max_progress as u64 {
                sum as u16
            } else {
                settings.max_progress
            }
        };
        let cp = if matches!(action, Action::TricksOfTheTrade) {
            least(settings.max_cp as i32, spent + 20) as i16
        } else {
            spent as i16
        };
        let durability = if matches!(action, Action::MasterMend) {
            least(settings.max_durability as i32, worn + 30) as i8
        } else if matches!(action, Action::ImmaculateMend) {
            settings.max_durability
        } else {
            worn as i8
        };
        SimulationState {
            cp,
            durability,
            progress,
            quality,
            unreliable_quality,
            effects: self.effects_used(action, condition, progress_increase != 0, normal != 0),
            combo: self.combo,
        }
    }

    fn effects_started(effects: Effects, action: Action) -> (r: Effects)
        ensures
            r@ == StateData::effects_started(effects@, action),
    {
        match action {
            Action::WasteNot => effects.with_waste_not(4),
            Action::WasteNot2 => effects.with_waste_not(8),
            Action::Veneration => effects.with_veneration(4),
            Action::Innovation => effects.with_innovation(4),
            Action::GreatStrides => effects.with_great_strides(3),
            Action::MuscleMemory => effects.with_muscle_memory(5),
            Action::Manipulation => effects.with_manipulation(8),
            Action::TrainedPerfection => effects.with_trained_perfection(SingleUse::Active),
            Action::HeartAndSoul => effects.with_heart_and_soul(SingleUse::Active),
            Action::QuickInnovation => effects.with_innovation(1).with_quick_innovation_available(
                false,
            ),
            _ => effects,
        }
    }

    fn end_step(&self, action: Action, before: Combo, settings: &Settings) -> (r: SimulationState)
        requires
            self.durability > 0,
        ensures
            r@ == self@.end_step(action, before, *settings),
    {
        let mut next = *self;
        if action.ticks_effects() {
            if self.effects.manipulation() > 0 && !matches!(action, Action::Manipulation) {
                next.durability = least(
                    settings.max_durability as i32,
                    self.durability as i32 + 5,
                ) as i8;
            }
            let mut effects = self.effects;
            effects.tick_down();
            next.effects = Self::effects_started(effects, action);
            next.combo = action.to_combo(before);
        } else {
            next.effects = Self::effects_started(self.effects, action);
        }
        next
    }

    /// Uses the action on the state under the condition.
    ///
    /// The checks come in this order: the job level, the mask of the settings, whether
    /// the craft is over or has less durability left than the action costs, the CP,
    /// and what the action itself asks for. Where all pass, the action takes its CP
    /// and durability, adds progress and quality up to their targets, and uses up
    /// what it feeds on. Unless that ends the craft, the step ends: Manipulation
    /// restores durability, the timed effects tick, and the effects of the action
    /// begin.
    ///
    /// A state within the limits of the settings stays within them, Inner Quiet at
    /// most 10 among them; and an action that costs no durability leaves Trained
    /// Perfection in force.
    pub fn use_action(self, action: Action, condition: Condition, settings: &Settings) -> (r:
        Result<SimulationState, ActionError>)
        ensures
            outcome_view(r) == self@.use_action(action, condition, *settings),
            self@.within(*settings) && r is Ok ==> r->Ok_0@.within(*settings),
            self@.effects.trained_perfection == SingleUse::Active && action.base_durability_cost()
                == 0 && r is Ok ==> r->Ok_0@.effects.trained_perfection == SingleUse::Active,
    {
        proof {
            reveal(StateData::use_action);
            if self@.use_action(action, condition, *settings) is Ok {
                if self@.within(*settings) {
                    crate::transitions::lemma_transition_within(
                        self@,
                        action,
                        condition,
                        *settings,
                    );
                }
                if self@.effects.trained_perfection == SingleUse::Active
                    && action.base_durability_cost() == 0 {
                    crate::transitions::lemma_trained_perfection_kept(
                        self@,
                        action,
                        condition,
                        *settings,
                    );
                }
            }
        }
        self.transition(action, condition, settings, false)
    }

    /// The transition as a bound on steps counts it: as [`use_action`](Self::use_action),
    /// but with any durability left an action is used even where it costs more than
    /// is left, and ends the craft.
    pub fn use_action_overdrawing(
        self,
        action: Action,
        condition: Condition,
        settings: &Settings,
    ) -> (r: Result<SimulationState, ActionError>)
        ensures
            outcome_view(r) == self@.use_action_overdrawing(action, condition, *settings),
    {
        proof {
            reveal(StateData::use_action_overdrawing);
        }
        self.transition(action, condition, settings, true)
    }

    fn transition(
        self,
        action: Action,
        condition: Condition,
        settings: &Settings,
        overdraw: bool,
    ) -> (r: Result<SimulationState, ActionError>)
        ensures
            outcome_view(r) == (match self@.check_with(action, condition, *settings, overdraw) {
                Some(error) => Err::<StateData, ActionError>(error),
                None => Ok::<StateData, ActionError>(self@.apply(action, condition, *settings)),
            }),
    {
        if settings.job_level < action.level_requirement() {
            return Err(ActionError::NotUnlocked);
        }
        if !settings.allowed_actions.has(action) {
            return Err(ActionError::ActionDisabled);
        }
        if self.is_final(settings) || (!overdraw && self.durability < action.durability_cost(
            &self.effects,
            condition,
        )) {
            return Err(ActionError::NoDurability);
        }
        if self.cp < self.cp_cost(action, condition) {
            return Err(ActionError::InsufficientCp);
        }
        match self.check_action(action, condition) {
            Some(error) => {
                return Err(error);
            },
            None => {},
        }
        let after = self.after_action(action, condition, settings);
        if after.is_final(settings) {
            Ok(after)
        } else {
            Ok(after.end_step(action, self.combo, settings))
        }
    }

    /// The state after the actions, each used under a Normal condition on the state
    /// that the one before it left, from the start of a craft; or the error of the
    /// first action that cannot be used.
    pub fn from_macro(settings: &Settings, actions: &[Action]) -> (r: Result<
        SimulationState,
        ActionError,
    >)
        ensures
            outcome_view(r) == StateData::initial(*settings).run(actions@, *settings),
    {
        let mut state = SimulationState::new(settings);
        let mut i: usize = 0;
        assert(actions@.skip(0) == actions@);
        while i < actions.len()
            invariant
                i <= actions.len(),
                StateData::initial(*settings).run(actions@, *settings) == state@.run(
                    actions@.skip(i as int),
                    *settings,
                ),
            decreases actions.len() - i,
        {
            proof {
                assert(actions@.skip(i as int)[0] == actions@[i as int]);
                assert(actions@.skip(i as int).skip(1) == actions@.skip(i + 1));
            }
            match state.use_action(actions[i], Condition::Normal, settings) {
                Ok(next) => {
                    state = next;
                },
                Err(error) => {
                    return Err(error);
                },
            }
            i = i + 1;
        }
        Ok(state)
    }

    /// As [`from_macro`](Self::from_macro), but an action that cannot be used is passed
    /// over: the state goes on from where it was, and the list says for each action
    /// whether it was used or why not.
    pub fn from_macro_continue_on_error(settings: &Settings, actions: &[Action]) -> (r: (
        SimulationState,
        Vec<Result<(), ActionError>>,
    ))
        ensures
            r.0@ == StateData::initial(*settings).run_over_errors(actions@, *settings),
            r.1@ == StateData::initial(*settings).errors(actions@, *settings),
    {
        let mut state = SimulationState::new(settings);
        let mut errors: Vec<Result<(), ActionError>> = Vec::new();
        let mut i: usize = 0;
        assert(actions@.skip(0) == actions@);
        while i < actions.len()
            invariant
                i <= actions.len(),
                StateData::initial(*settings).run_over_errors(actions@, *settings)
                    == state@.run_over_errors(actions@.skip(i as int), *settings),
                StateData::initial(*settings).errors(actions@, *settings) == errors@
                    + state@.errors(actions@.skip(i as int), *settings),
            decreases actions.len() - i,
        {
            proof {
                assert(actions@.skip(i as int)[0] == actions@[i as int]);
                assert(actions@.skip(i as int).skip(1) == actions@.skip(i + 1));
            }
            let ghost before = errors@;
            let ghost rest = state@.errors(actions@.skip(i as int), *settings);
            match state.use_action(actions[i], Condition::Normal, settings) {
                Ok(next) => {
                    errors.push(Ok(()));
                    state = next;
                },
                Err(error) => {
                    errors.push(Err(error));
                },
            }
            i = i + 1;
            assert(before + rest =~= errors@ + state@.errors(
                actions@.skip(i as int),
                *settings,
            ));
        }
        assert(errors@ + Seq::<Result<(), ActionError>>::empty() =~= errors@);
        (state, errors)
    }
}

} // verus!
