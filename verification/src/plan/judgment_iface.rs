//! The seam for judgment-bearing decisions: cases in, gap-report rows out.

use vstd::prelude::*;
use crate::plan::types::{CaseView, GapReportRow, JudgmentCase, case_views, row_views};

verus! {

/// Turns judgment cases into gap-report rows. Implementations may resolve
/// cases by other means; the default one reports every case as a row.
pub trait JudgmentEmitter {
    /// Whether `rows` is an answer this emitter may give for `cases`; an
    /// implementation that promises nothing defines it as `true`.
    spec fn admits(&self, cases: Seq<CaseView>, rows: Seq<CaseView>) -> bool;

    fn emit_judgment_cases(&self, cases: &[JudgmentCase]) -> (r: Vec<GapReportRow>)
        ensures
            self.admits(case_views(cases@), row_views(r@)),
    ;
}

/// The default emitter: one row per case, with the same path, category and
/// description.
pub struct DefaultJudgmentEmitter;

impl JudgmentEmitter for DefaultJudgmentEmitter {
    open spec fn admits(&self, cases: Seq<CaseView>, rows: Seq<CaseView>) -> bool {
        rows == cases
    }

    fn emit_judgment_cases(&self, cases: &[JudgmentCase]) -> (r: Vec<GapReportRow>)
        ensures
            row_views(r@) == case_views(cases@),
    {
        let mut rows: Vec<GapReportRow> = Vec::new();
        for i in 0..cases.len()
            invariant
                row_views(rows@) == case_views(cases@.take(i as int)),
        {
            let c = &cases[i];
            let ghost before = rows@;
            rows.push(GapReportRow { path: c.path.clone(), category: c.category, description: c.description.clone() });
            proof {
                assert(row_views(rows@) =~= row_views(before).push(c@));
                assert(case_views(cases@.take(i + 1)) =~= case_views(cases@.take(i as int)).push(c@));
            }
        }
        proof {
            assert(cases@.take(cases@.len() as int) =~= cases@);
        }
        rows
    }
}

} // verus!
