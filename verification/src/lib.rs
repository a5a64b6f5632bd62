//! Canonicalization core: structure templates, corpus audits, plan emission,
//! gap reports and the align pipeline, with their contracts proved by Verus.

pub mod text;
pub mod json;
pub mod yaml;
pub mod toml_value;
pub mod files;
pub mod template;
pub mod audit;
pub mod plan;
pub mod gap_report;
pub mod orchestrator;
pub mod stub;
pub mod cli;
pub mod laws;
