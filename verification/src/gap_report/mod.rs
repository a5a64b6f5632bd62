//! Gap reports: one file per judgment case.

pub mod formatter;

pub use formatter::{GapReportError, GapReportFormatter};
