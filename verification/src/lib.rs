//! A simulator of a crafting minigame and the solvers that search it for the action
//! sequence of the highest quality.
pub mod actions;
pub mod combos;
pub mod effects;
pub mod finish_solver;
pub mod interrupt;
pub mod macro_solver;
pub mod memo;
pub mod pareto;
pub mod pareto_front;
pub mod quality_upper_bound_solver;
pub mod search_queue;
pub mod settings;
pub mod state;
pub mod step_lower_bound_solver;
pub mod transitions;

pub use actions::Action;
pub use actions::Combo;
pub use actions::Condition;
pub use combos::ActionCombo;
pub use combos::SolverSettings;
pub use effects::Effects;
pub use effects::SingleUse;
pub use finish_solver::FinishSolver;
pub use interrupt::AtomicFlag;
pub use macro_solver::MacroSolver;
pub use macro_solver::SolverConfig;
pub use macro_solver::SolverError;
pub use pareto::ParetoFrontBuilder;
pub use pareto::ParetoFrontId;
pub use pareto::ParetoValue;
pub use pareto_front::ParetoFront;
pub use quality_upper_bound_solver::QualityUpperBoundSolver;
pub use settings::ActionMask;
pub use settings::Settings;
pub use state::ActionError;
pub use state::SimulationState;
pub use step_lower_bound_solver::StepLowerBoundSolver;
