//! Plans emitted from a drift report.

pub mod emitter;
pub mod judgment_iface;
pub mod types;

pub use types::{FmPlan, FmPlanOp, GapReportRow, JudgmentCase, JudgmentCategory, MainPlan, MainPlanOp};
pub use judgment_iface::{DefaultJudgmentEmitter, JudgmentEmitter};
pub use emitter::{EmitError, MechanicalPlanEmitter, PlanEmission};
