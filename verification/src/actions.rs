//! The actions of a crafter, the conditions of a step and the combo slot.
//!
//! The figures are those of the game with the level cap at 100. Standard Touch costs
//! 32 CP and Advanced Touch 46, and each 18 in its combo; Reflect works on quality
//! with a coefficient of 300; Delicate Synthesis adds progress with a coefficient of
//! 150 from level 94 on, and of 100 below.
use vstd::prelude::*;
use crate::effects::Effects;
use crate::effects::EffectsData;
use crate::effects::SingleUse;

verus! {

/// One move of the crafter.
#[derive(Clone, Copy, Debug, PartialEq, Eq, Hash, Structural)]
pub enum Action {
    BasicSynthesis,
    BasicTouch,
    MasterMend,
    Observe,
    TricksOfTheTrade,
    WasteNot,
    Veneration,
    StandardTouch,
    GreatStrides,
    Innovation,
    WasteNot2,
    ByregotsBlessing,
    PreciseTouch,
    MuscleMemory,
    CarefulSynthesis,
    Manipulation,
    PrudentTouch,
    AdvancedTouch,
    Reflect,
    PreparatoryTouch,
    Groundwork,
    DelicateSynthesis,
    IntensiveSynthesis,
    TrainedEye,
    HeartAndSoul,
    PrudentSynthesis,
    TrainedFinesse,
    RefinedTouch,
    QuickInnovation,
    ImmaculateMend,
    TrainedPerfection,
}

/// The modifier that the game rolls for a step.
#[derive(Clone, Copy, Debug, PartialEq, Eq, Hash, Structural)]
pub enum Condition {
    Normal,
    Good,
    Excellent,
    Poor,
    Pliant,
    Sturdy,
    Malleable,
    Primed,
    GoodOmen,
}

/// What the last action left for the next one to build on.
#[derive(Clone, Copy, Debug, PartialEq, Eq, Hash, Structural)]
pub enum Combo {
    NoCombo,
    SynthesisBegin,
    BasicTouch,
    StandardTouch,
}

impl Combo {
    pub open spec fn spec_index(self) -> u8 {
        match self {
            Combo::NoCombo => 0,
            Combo::SynthesisBegin => 1,
            Combo::BasicTouch => 2,
            Combo::StandardTouch => 3,
        }
    }

    /// The place of the slot in the enumeration.
    #[verifier::when_used_as_spec(spec_index)]
    pub fn index(self) -> (r: u8)
        ensures
            r == self.spec_index(),
            r < 4,
    {
        match self {
            Combo::NoCombo => 0,
            Combo::SynthesisBegin => 1,
            Combo::BasicTouch => 2,
            Combo::StandardTouch => 3,
        }
    }
}

/// The number of actions.
pub const ACTION_COUNT: u8 = 31;

impl Action {
    pub open spec fn spec_index(self) -> u8 {
        match self {
            Action::BasicSynthesis => 0,
            Action::BasicTouch => 1,
            Action::MasterMend => 2,
            Action::Observe => 3,
            Action::TricksOfTheTrade => 4,
            Action::WasteNot => 5,
            Action::Veneration => 6,
            Action::StandardTouch => 7,
            Action::GreatStrides => 8,
            Action::Innovation => 9,
            Action::WasteNot2 => 10,
            Action::ByregotsBlessing => 11,
            Action::PreciseTouch => 12,
            Action::MuscleMemory => 13,
            Action::CarefulSynthesis => 14,
            Action::Manipulation => 15,
            Action::PrudentTouch => 16,
            Action::AdvancedTouch => 17,
            Action::Reflect => 18,
            Action::PreparatoryTouch => 19,
            Action::Groundwork => 20,
            Action::DelicateSynthesis => 21,
            Action::IntensiveSynthesis => 22,
            Action::TrainedEye => 23,
            Action::HeartAndSoul => 24,
            Action::PrudentSynthesis => 25,
            Action::TrainedFinesse => 26,
            Action::RefinedTouch => 27,
            Action::QuickInnovation => 28,
            Action::ImmaculateMend => 29,
            Action::TrainedPerfection => 30,
        }
    }

    /// The place of the action in the enumeration, which is also its bit in a mask.
    #[verifier::when_used_as_spec(spec_index)]
    pub fn index(self) -> (r: u8)
        ensures
            r == self.spec_index(),
            r < ACTION_COUNT,
    {
        match self {
            Action::BasicSynthesis => 0,
            Action::BasicTouch => 1,
            Action::MasterMend => 2,
            Action::Observe => 3,
            Action::TricksOfTheTrade => 4,
            Action::WasteNot => 5,
            Action::Veneration => 6,
            Action::StandardTouch => 7,
            Action::GreatStrides => 8,
            Action::Innovation => 9,
            Action::WasteNot2 => 10,
            Action::ByregotsBlessing => 11,
            Action::PreciseTouch => 12,
            Action::MuscleMemory => 13,
            Action::CarefulSynthesis => 14,
            Action::Manipulation => 15,
            Action::PrudentTouch => 16,
            Action::AdvancedTouch => 17,
            Action::Reflect => 18,
            Action::PreparatoryTouch => 19,
            Action::Groundwork => 20,
            Action::DelicateSynthesis => 21,
            Action::IntensiveSynthesis => 22,
            Action::TrainedEye => 23,
            Action::HeartAndSoul => 24,
            Action::PrudentSynthesis => 25,
            Action::TrainedFinesse => 26,
            Action::RefinedTouch => 27,
            Action::QuickInnovation => 28,
            Action::ImmaculateMend => 29,
            Action::TrainedPerfection => 30,
        }
    }

    pub open spec fn spec_from_index(index: u8) -> Action {
        match index {
            0 => Action::BasicSynthesis,
            1 => Action::BasicTouch,
            2 => Action::MasterMend,
            3 => Action::Observe,
            4 => Action::TricksOfTheTrade,
            5 => Action::WasteNot,
            6 => Action::Veneration,
            7 => Action::StandardTouch,
            8 => Action::GreatStrides,
            9 => Action::Innovation,
            10 => Action::WasteNot2,
            11 => Action::ByregotsBlessing,
            12 => Action::PreciseTouch,
            13 => Action::MuscleMemory,
            14 => Action::CarefulSynthesis,
            15 => Action::Manipulation,
            16 => Action::PrudentTouch,
            17 => Action::AdvancedTouch,
            18 => Action::Reflect,
            19 => Action::PreparatoryTouch,
            20 => Action::Groundwork,
            21 => Action::DelicateSynthesis,
            22 => Action::IntensiveSynthesis,
            23 => Action::TrainedEye,
            24 => Action::HeartAndSoul,
            25 => Action::PrudentSynthesis,
            26 => Action::TrainedFinesse,
            27 => Action::RefinedTouch,
            28 => Action::QuickInnovation,
            29 => Action::ImmaculateMend,
            _ => Action::TrainedPerfection,
        }
    }

    /// The action at a place of the enumeration.
    #[verifier::when_used_as_spec(spec_from_index)]
    pub fn from_index(index: u8) -> (r: Action)
        requires
            index < ACTION_COUNT,
        ensures
            r == Action::spec_from_index(index),
            r.index() == index,
    {
        match index {
            0 => Action::BasicSynthesis,
            1 => Action::BasicTouch,
            2 => Action::MasterMend,
            3 => Action::Observe,
            4 => Action::TricksOfTheTrade,
            5 => Action::WasteNot,
            6 => Action::Veneration,
            7 => Action::StandardTouch,
            8 => Action::GreatStrides,
            9 => Action::Innovation,
            10 => Action::WasteNot2,
            11 => Action::ByregotsBlessing,
            12 => Action::PreciseTouch,
            13 => Action::MuscleMemory,
            14 => Action::CarefulSynthesis,
            15 => Action::Manipulation,
            16 => Action::PrudentTouch,
            17 => Action::AdvancedTouch,
            18 => Action::Reflect,
            19 => Action::PreparatoryTouch,
            20 => Action::Groundwork,
            21 => Action::DelicateSynthesis,
            22 => Action::IntensiveSynthesis,
            23 => Action::TrainedEye,
            24 => Action::HeartAndSoul,
            25 => Action::PrudentSynthesis,
            26 => Action::TrainedFinesse,
            27 => Action::RefinedTouch,
            28 => Action::QuickInnovation,
            29 => Action::ImmaculateMend,
            _ => Action::TrainedPerfection,
        }
    }

    /// Every action has a place below the count, and the place names the action.
    pub proof fn lemma_index(self)
        ensures
            self.index() < ACTION_COUNT,
            Action::from_index(self.index()) == self,
    {
    }

    pub open spec fn spec_level_requirement(self) -> u8 {
        match self {
            Action::BasicSynthesis => 1,
            Action::BasicTouch => 5,
            Action::MasterMend => 7,
            Action::Observe => 13,
            Action::TricksOfTheTrade => 13,
            Action::WasteNot => 15,
            Action::Veneration => 15,
            Action::StandardTouch => 18,
            Action::GreatStrides => 21,
            Action::Innovation => 26,
            Action::WasteNot2 => 47,
            Action::ByregotsBlessing => 50,
            Action::PreciseTouch => 53,
            Action::MuscleMemory => 54,
            Action::CarefulSynthesis => 62,
            Action::Manipulation => 65,
            Action::PrudentTouch => 66,
            Action::AdvancedTouch => 68,
            Action::Reflect => 69,
            Action::PreparatoryTouch => 71,
            Action::Groundwork => 72,
            Action::DelicateSynthesis => 76,
            Action::IntensiveSynthesis => 78,
            Action::TrainedEye => 80,
            Action::HeartAndSoul => 86,
            Action::PrudentSynthesis => 88,
            Action::TrainedFinesse => 90,
            Action::RefinedTouch => 92,
            Action::QuickInnovation => 96,
            Action::ImmaculateMend => 98,
            Action::TrainedPerfection => 100,
        }
    }

    /// The job level from which the action is unlocked.
    #[verifier::when_used_as_spec(spec_level_requirement)]
    pub fn level_requirement(self) -> (r: u8)
        ensures
            r == self.spec_level_requirement(),
    {
        match self {
            Action::BasicSynthesis => 1,
            Action::BasicTouch => 5,
            Action::MasterMend => 7,
            Action::Observe => 13,
            Action::TricksOfTheTrade => 13,
            Action::WasteNot => 15,
            Action::Veneration => 15,
            Action::StandardTouch => 18,
            Action::GreatStrides => 21,
            Action::Innovation => 26,
            Action::WasteNot2 => 47,
            Action::ByregotsBlessing => 50,
            Action::PreciseTouch => 53,
            Action::MuscleMemory => 54,
            Action::CarefulSynthesis => 62,
            Action::Manipulation => 65,
            Action::PrudentTouch => 66,
            Action::AdvancedTouch => 68,
            Action::Reflect => 69,
            Action::PreparatoryTouch => 71,
            Action::Groundwork => 72,
            Action::DelicateSynthesis => 76,
            Action::IntensiveSynthesis => 78,
            Action::TrainedEye => 80,
            Action::HeartAndSoul => 86,
            Action::PrudentSynthesis => 88,
            Action::TrainedFinesse => 90,
            Action::RefinedTouch => 92,
            Action::QuickInnovation => 96,
            Action::ImmaculateMend => 98,
            Action::TrainedPerfection => 100,
        }
    }

    pub open spec fn spec_time_cost(self) -> u8 {
        match self {
            Action::BasicSynthesis => 3,
            Action::BasicTouch => 3,
            Action::MasterMend => 3,
            Action::Observe => 3,
            Action::TricksOfTheTrade => 2,
            Action::WasteNot => 2,
            Action::Veneration => 2,
            Action::StandardTouch => 3,
            Action::GreatStrides => 2,
            Action::Innovation => 2,
            Action::WasteNot2 => 2,
            Action::ByregotsBlessing => 3,
            Action::PreciseTouch => 3,
            Action::MuscleMemory => 3,
            Action::CarefulSynthesis => 3,
            Action::Manipulation => 2,
            Action::PrudentTouch => 3,
            Action::AdvancedTouch => 3,
            Action::Reflect => 3,
            Action::PreparatoryTouch => 3,
            Action::Groundwork => 3,
            Action::DelicateSynthesis => 3,
            Action::IntensiveSynthesis => 3,
            Action::TrainedEye => 3,
            Action::HeartAndSoul => 3,
            Action::PrudentSynthesis => 3,
            Action::TrainedFinesse => 3,
            Action::RefinedTouch => 3,
            Action::QuickInnovation => 3,
            Action::ImmaculateMend => 3,
            Action::TrainedPerfection => 3,
        }
    }

    /// The seconds that the action takes in a macro.
    #[verifier::when_used_as_spec(spec_time_cost)]
    pub fn time_cost(self) -> (r: u8)
        ensures
            r == self.spec_time_cost(),
    {
        match self {
            Action::BasicSynthesis => 3,
            Action::BasicTouch => 3,
            Action::MasterMend => 3,
            Action::Observe => 3,
            Action::TricksOfTheTrade => 2,
            Action::WasteNot => 2,
            Action::Veneration => 2,
            Action::StandardTouch => 3,
            Action::GreatStrides => 2,
            Action::Innovation => 2,
            Action::WasteNot2 => 2,
            Action::ByregotsBlessing => 3,
            Action::PreciseTouch => 3,
            Action::MuscleMemory => 3,
            Action::CarefulSynthesis => 3,
            Action::Manipulation => 2,
            Action::PrudentTouch => 3,
            Action::AdvancedTouch => 3,
            Action::Reflect => 3,
            Action::PreparatoryTouch => 3,
            Action::Groundwork => 3,
            Action::DelicateSynthesis => 3,
            Action::IntensiveSynthesis => 3,
            Action::TrainedEye => 3,
            Action::HeartAndSoul => 3,
            Action::PrudentSynthesis => 3,
            Action::TrainedFinesse => 3,
            Action::RefinedTouch => 3,
            Action::QuickInnovation => 3,
            Action::ImmaculateMend => 3,
            Action::TrainedPerfection => 3,
        }
    }

    pub open spec fn spec_base_cp_cost(self) -> i16 {
        match self {
            Action::BasicTouch => 18,
            Action::MasterMend => 88,
            Action::Observe => 7,
            Action::WasteNot => 56,
            Action::Veneration => 18,
            Action::StandardTouch => 32,
            Action::GreatStrides => 32,
            Action::Innovation => 18,
            Action::WasteNot2 => 98,
            Action::ByregotsBlessing => 24,
            Action::PreciseTouch => 18,
            Action::MuscleMemory => 6,
            Action::CarefulSynthesis => 7,
            Action::Manipulation => 96,
            Action::PrudentTouch => 25,
            Action::AdvancedTouch => 46,
            Action::Reflect => 6,
            Action::PreparatoryTouch => 40,
            Action::Groundwork => 18,
            Action::DelicateSynthesis => 32,
            Action::IntensiveSynthesis => 6,
            Action::TrainedEye => 250,
            Action::PrudentSynthesis => 18,
            Action::TrainedFinesse => 32,
            Action::RefinedTouch => 24,
            Action::ImmaculateMend => 112,
            _ => 0,
        }
    }

    /// The CP that the action costs outside a combo and under a Normal condition.
    #[verifier::when_used_as_spec(spec_base_cp_cost)]
    pub fn base_cp_cost(self) -> (r: i16)
        ensures
            r == self.spec_base_cp_cost(),
    {
        match self {
            Action::BasicTouch => 18,
            Action::MasterMend => 88,
            Action::Observe => 7,
            Action::WasteNot => 56,
            Action::Veneration => 18,
            Action::StandardTouch => 32,
            Action::GreatStrides => 32,
            Action::Innovation => 18,
            Action::WasteNot2 => 98,
            Action::ByregotsBlessing => 24,
            Action::PreciseTouch => 18,
            Action::MuscleMemory => 6,
            Action::CarefulSynthesis => 7,
            Action::Manipulation => 96,
            Action::PrudentTouch => 25,
            Action::AdvancedTouch => 46,
            Action::Reflect => 6,
            Action::PreparatoryTouch => 40,
            Action::Groundwork => 18,
            Action::DelicateSynthesis => 32,
            Action::IntensiveSynthesis => 6,
            Action::TrainedEye => 250,
            Action::PrudentSynthesis => 18,
            Action::TrainedFinesse => 32,
            Action::RefinedTouch => 24,
            Action::ImmaculateMend => 112,
            _ => 0,
        }
    }

    pub open spec fn spec_base_durability_cost(self) -> i8 {
        match self {
            Action::BasicSynthesis => 10,
            Action::BasicTouch => 10,
            Action::StandardTouch => 10,
            Action::ByregotsBlessing => 10,
            Action::PreciseTouch => 10,
            Action::MuscleMemory => 10,
            Action::CarefulSynthesis => 10,
            Action::PrudentTouch => 5,
            Action::AdvancedTouch => 10,
            Action::Reflect => 10,
            Action::PreparatoryTouch => 20,
            Action::Groundwork => 20,
            Action::DelicateSynthesis => 10,
            Action::IntensiveSynthesis => 10,
            Action::TrainedEye => 10,
            Action::PrudentSynthesis => 5,
            Action::RefinedTouch => 10,
            _ => 0,
        }
    }

    /// The durability that the action costs with no effect active and under a Normal condition.
    #[verifier::when_used_as_spec(spec_base_durability_cost)]
    pub fn base_durability_cost(self) -> (r: i8)
        ensures
            r == self.spec_base_durability_cost(),
    {
        match self {
            Action::BasicSynthesis => 10,
            Action::BasicTouch => 10,
            Action::StandardTouch => 10,
            Action::ByregotsBlessing => 10,
            Action::PreciseTouch => 10,
            Action::MuscleMemory => 10,
            Action::CarefulSynthesis => 10,
            Action::PrudentTouch => 5,
            Action::AdvancedTouch => 10,
            Action::Reflect => 10,
            Action::PreparatoryTouch => 20,
            Action::Groundwork => 20,
            Action::DelicateSynthesis => 10,
            Action::IntensiveSynthesis => 10,
            Action::TrainedEye => 10,
            Action::PrudentSynthesis => 5,
            Action::RefinedTouch => 10,
            _ => 0,
        }
    }

    pub open spec fn spec_base_progress_increase(self) -> u16 {
        match self {
            Action::BasicSynthesis => 120,
            Action::MuscleMemory => 300,
            Action::CarefulSynthesis => 180,
            Action::Groundwork => 360,
            Action::DelicateSynthesis => 150,
            Action::IntensiveSynthesis => 400,
            Action::PrudentSynthesis => 180,
            _ => 0,
        }
    }

    /// The progress coefficient of the action at the highest job level, in hundredths.
    #[verifier::when_used_as_spec(spec_base_progress_increase)]
    pub fn base_progress_increase(self) -> (r: u16)
        ensures
            r == self.spec_base_progress_increase(),
    {
        match self {
            Action::BasicSynthesis => 120,
            Action::MuscleMemory => 300,
            Action::CarefulSynthesis => 180,
            Action::Groundwork => 360,
            Action::DelicateSynthesis => 150,
            Action::IntensiveSynthesis => 400,
            Action::PrudentSynthesis => 180,
            _ => 0,
        }
    }

    pub open spec fn spec_base_quality_increase(self) -> u16 {
        match self {
            Action::BasicTouch => 100,
            Action::StandardTouch => 125,
            Action::ByregotsBlessing => 100,
            Action::PreciseTouch => 150,
            Action::PrudentTouch => 100,
            Action::AdvancedTouch => 150,
            Action::Reflect => 300,
            Action::PreparatoryTouch => 200,
            Action::DelicateSynthesis => 100,
            Action::TrainedFinesse => 100,
            Action::RefinedTouch => 100,
            _ => 0,
        }
    }

    /// The quality coefficient of the action without Inner Quiet, in hundredths.
    #[verifier::when_used_as_spec(spec_base_quality_increase)]
    pub fn base_quality_increase(self) -> (r: u16)
        ensures
            r == self.spec_base_quality_increase(),
    {
        match self {
            Action::BasicTouch => 100,
            Action::StandardTouch => 125,
            Action::ByregotsBlessing => 100,
            Action::PreciseTouch => 150,
            Action::PrudentTouch => 100,
            Action::AdvancedTouch => 150,
            Action::Reflect => 300,
            Action::PreparatoryTouch => 200,
            Action::DelicateSynthesis => 100,
            Action::TrainedFinesse => 100,
            Action::RefinedTouch => 100,
            _ => 0,
        }
    }

    pub open spec fn spec_ticks_effects(self) -> bool {
        self != Action::HeartAndSoul && self != Action::QuickInnovation
    }

    /// Whether the action takes a step, so that the timed effects tick.
    #[verifier::when_used_as_spec(spec_ticks_effects)]
    pub fn ticks_effects(self) -> (r: bool)
        ensures
            r == self.spec_ticks_effects(),
    {
        match self {
            Action::HeartAndSoul => false,
            Action::QuickInnovation => false,
            _ => true,
        }
    }

    pub open spec fn spec_required_combo(self) -> Option<Combo> {
        match self {
            Action::Reflect => Some(Combo::SynthesisBegin),
            Action::MuscleMemory => Some(Combo::SynthesisBegin),
            Action::TrainedEye => Some(Combo::SynthesisBegin),
            Action::RefinedTouch => Some(Combo::BasicTouch),
            _ => None,
        }
    }

    /// The combo slot that the action cannot be used without, if there is one.
    #[verifier::when_used_as_spec(spec_required_combo)]
    pub fn required_combo(self) -> (r: Option<Combo>)
        ensures
            r == self.spec_required_combo(),
    {
        match self {
            Action::Reflect => Some(Combo::SynthesisBegin),
            Action::MuscleMemory => Some(Combo::SynthesisBegin),
            Action::TrainedEye => Some(Combo::SynthesisBegin),
            Action::RefinedTouch => Some(Combo::BasicTouch),
            _ => None,
        }
    }

    pub open spec fn spec_to_combo(self, current: Combo) -> Combo {
        match self {
            Action::BasicTouch => Combo::BasicTouch,
            Action::StandardTouch => if current == Combo::BasicTouch {
                Combo::StandardTouch
            } else {
                Combo::NoCombo
            },
            Action::Observe => Combo::StandardTouch,
            _ => Combo::NoCombo,
        }
    }

    /// The combo slot that the action leaves, given the slot it was used in.
    ///
    /// Observe opens the same follow-up as a Standard Touch that followed a Basic Touch.
    #[verifier::when_used_as_spec(spec_to_combo)]
    pub fn to_combo(self, current: Combo) -> (r: Combo)
        ensures
            r == self.spec_to_combo(current),
    {
        match self {
            Action::BasicTouch => Combo::BasicTouch,
            Action::StandardTouch => match current {
                Combo::BasicTouch => Combo::StandardTouch,
                _ => Combo::NoCombo,
            },
            Action::Observe => Combo::StandardTouch,
            _ => Combo::NoCombo,
        }
    }

    pub open spec fn spec_combo_cp_cost(self, combo: Combo) -> i16 {
        if self == Action::StandardTouch && combo == Combo::BasicTouch {
            18
        } else if self == Action::AdvancedTouch && combo == Combo::StandardTouch {
            18
        } else {
            self.base_cp_cost()
        }
    }

    /// The CP that the action costs in a combo slot under a Normal condition: a touch
    /// that continues its combo costs 18.
    #[verifier::when_used_as_spec(spec_combo_cp_cost)]
    pub fn combo_cp_cost(self, combo: Combo) -> (r: i16)
        ensures
            r == self.spec_combo_cp_cost(combo),
            0 <= r <= 250,
    {
        match (self, combo) {
            (Action::StandardTouch, Combo::BasicTouch) => 18,
            (Action::AdvancedTouch, Combo::StandardTouch) => 18,
            _ => self.base_cp_cost(),
        }
    }

    /// The CP that the action costs outside a combo: a Pliant condition halves the
    /// base cost, rounded up.
    pub fn cp_cost(self, effects: &Effects, condition: Condition) -> (r: i16)
        ensures
            r == condition_cp_cost(self.base_cp_cost(), condition),
    {
        halve_if(self.base_cp_cost(), matches!(condition, Condition::Pliant))
    }

    /// The durability that the action costs under the given effects and condition.
    pub open spec fn durability_cost_under(self, effects: EffectsData, condition: Condition) -> i8 {
        if effects.trained_perfection == SingleUse::Active {
            0
        } else {
            let base = half_up_if(
                self.base_durability_cost() as int,
                condition == Condition::Sturdy,
            );
            half_up_if(base, effects.waste_not > 0) as i8
        }
    }

    pub open spec fn spec_durability_cost(self, effects: &Effects, condition: Condition) -> i8 {
        self.durability_cost_under(effects@, condition)
    }

    /// The durability that the action costs: nothing while Trained Perfection is in
    /// force; else the base cost, halved under a Sturdy condition and halved again
    /// under Waste Not, each time rounded up.
    #[verifier::when_used_as_spec(spec_durability_cost)]
    pub fn durability_cost(self, effects: &Effects, condition: Condition) -> (r: i8)
        ensures
            r == self.spec_durability_cost(effects, condition),
            0 <= r <= self.base_durability_cost(),
            r <= 20,
    {
        match effects.trained_perfection() {
            SingleUse::Active => 0,
            _ => {
                let base = halve_if(
                    self.base_durability_cost() as i16,
                    matches!(condition, Condition::Sturdy),
                );
                halve_if(base, effects.waste_not() > 0) as i8
            },
        }
    }

    pub open spec fn spec_progress_coefficient(self, job_level: u8) -> u16 {
        match self {
            Action::BasicSynthesis => if job_level < 31 {
                100
            } else {
                120
            },
            Action::CarefulSynthesis => if job_level < 82 {
                150
            } else {
                180
            },
            Action::Groundwork => if job_level < 86 {
                300
            } else {
                360
            },
            Action::DelicateSynthesis => if job_level < 94 {
                100
            } else {
                150
            },
            _ => self.base_progress_increase(),
        }
    }

    /// The progress coefficient of the action at a job level, in hundredths: four of
    /// the syntheses grow with the level.
    #[verifier::when_used_as_spec(spec_progress_coefficient)]
    pub fn progress_coefficient(self, job_level: u8) -> (r: u16)
        ensures
            r == self.spec_progress_coefficient(job_level),
            r <= 400,
    {
        match self {
            Action::BasicSynthesis => if job_level < 31 {
                100
            } else {
                120
            },
            Action::CarefulSynthesis => if job_level < 82 {
                150
            } else {
                180
            },
            Action::Groundwork => if job_level < 86 {
                300
            } else {
                360
            },
            Action::DelicateSynthesis => if job_level < 94 {
                100
            } else {
                150
            },
            _ => self.base_progress_increase(),
        }
    }

    pub open spec fn spec_inner_quiet_gain(self) -> u8 {
        match self {
            Action::PreparatoryTouch => 2,
            Action::PreciseTouch => 2,
            _ => 1,
        }
    }

    /// The stacks of Inner Quiet that the action adds when it raises quality: two for
    /// Precise Touch and Preparatory Touch, one for every other.
    #[verifier::when_used_as_spec(spec_inner_quiet_gain)]
    pub fn inner_quiet_gain(self) -> (r: u8)
        ensures
            r == self.spec_inner_quiet_gain(),
    {
        match self {
            Action::PreparatoryTouch => 2,
            Action::PreciseTouch => 2,
            _ => 1,
        }
    }

    /// The name of the action as the game shows it.
    pub fn display_name(self) -> (r: String)
        ensures
            r@ == self.spec_display_name()@,
    {
        match self {
            Action::BasicSynthesis => "Basic Synthesis".to_string(),
            Action::BasicTouch => "Basic Touch".to_string(),
            Action::MasterMend => "Master's Mend".to_string(),
            Action::Observe => "Observe".to_string(),
            Action::TricksOfTheTrade => "Tricks of the Trade".to_string(),
            Action::WasteNot => "Waste Not".to_string(),
            Action::Veneration => "Veneration".to_string(),
            Action::StandardTouch => "Standard Touch".to_string(),
            Action::GreatStrides => "Great Strides".to_string(),
            Action::Innovation => "Innovation".to_string(),
            Action::WasteNot2 => "Waste Not II".to_string(),
            Action::ByregotsBlessing => "Byregot's Blessing".to_string(),
            Action::PreciseTouch => "Precise Touch".to_string(),
            Action::MuscleMemory => "Muscle Memory".to_string(),
            Action::CarefulSynthesis => "Careful Synthesis".to_string(),
            Action::Manipulation => "Manipulation".to_string(),
            Action::PrudentTouch => "Prudent Touch".to_string(),
            Action::AdvancedTouch => "Advanced Touch".to_string(),
            Action::Reflect => "Reflect".to_string(),
            Action::PreparatoryTouch => "Preparatory Touch".to_string(),
            Action::Groundwork => "Groundwork".to_string(),
            Action::DelicateSynthesis => "Delicate Synthesis".to_string(),
            Action::IntensiveSynthesis => "Intensive Synthesis".to_string(),
            Action::TrainedEye => "Trained Eye".to_string(),
            Action::HeartAndSoul => "Heart and Soul".to_string(),
            Action::PrudentSynthesis => "Prudent Synthesis".to_string(),
            Action::TrainedFinesse => "Trained Finesse".to_string(),
            Action::RefinedTouch => "Refined Touch".to_string(),
            Action::QuickInnovation => "Quick Innovation".to_string(),
            Action::ImmaculateMend => "Immaculate Mend".to_string(),
            Action::TrainedPerfection => "Trained Perfection".to_string(),
        }
    }

    pub open spec fn spec_display_name(self) -> &'static str {
        match self {
            Action::BasicSynthesis => "Basic Synthesis",
            Action::BasicTouch => "Basic Touch",
            Action::MasterMend => "Master's Mend",
            Action::Observe => "Observe",
            Action::TricksOfTheTrade => "Tricks of the Trade",
            Action::WasteNot => "Waste Not",
            Action::Veneration => "Veneration",
            Action::StandardTouch => "Standard Touch",
            Action::GreatStrides => "Great Strides",
            Action::Innovation => "Innovation",
            Action::WasteNot2 => "Waste Not II",
            Action::ByregotsBlessing => "Byregot's Blessing",
            Action::PreciseTouch => "Precise Touch",
            Action::MuscleMemory => "Muscle Memory",
            Action::CarefulSynthesis => "Careful Synthesis",
            Action::Manipulation => "Manipulation",
            Action::PrudentTouch => "Prudent Touch",
            Action::AdvancedTouch => "Advanced Touch",
            Action::Reflect => "Reflect",
            Action::PreparatoryTouch => "Preparatory Touch",
            Action::Groundwork => "Groundwork",
            Action::DelicateSynthesis => "Delicate Synthesis",
            Action::IntensiveSynthesis => "Intensive Synthesis",
            Action::TrainedEye => "Trained Eye",
            Action::HeartAndSoul => "Heart and Soul",
            Action::PrudentSynthesis => "Prudent Synthesis",
            Action::TrainedFinesse => "Trained Finesse",
            Action::RefinedTouch => "Refined Touch",
            Action::QuickInnovation => "Quick Innovation",
            Action::ImmaculateMend => "Immaculate Mend",
            Action::TrainedPerfection => "Trained Perfection",
        }
    }
}

/// Half of a cost, rounded up, where the flag is set; the cost itself where it is not.
pub open spec fn half_up_if(cost: int, halve: bool) -> int {
    if halve {
        (cost + 1) / 2
    } else {
        cost
    }
}

/// A CP cost under a condition: Pliant halves it, rounded up.
pub open spec fn condition_cp_cost(cost: i16, condition: Condition) -> i16 {
    half_up_if(cost as int, condition == Condition::Pliant) as i16
}

fn halve_if(cost: i16, halve: bool) -> (r: i16)
    requires
        0 <= cost <= 250,
    ensures
        r == half_up_if(cost as int, halve),
        0 <= r <= cost,
{
    if halve {
        (cost + 1) / 2
    } else {
        cost
    }
}

} // verus!
