//! The align pipeline: audit, plan, anchor apply, gap report, re-audit.

pub mod anchor_runner;
pub mod pipeline;

pub use pipeline::{OrchestratorConfig, OrchestratorOutcome, StepOutcome, Pipeline, PipelineAction, PipelineEvent, PipelineStep, pipeline_start, pipeline_step, print_pipeline_summary};
