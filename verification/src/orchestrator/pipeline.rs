//! The align pipeline as a state machine: each call takes what the outside
//! work reported and says what to do next. The steps are Audit, Plan, then
//! (in apply mode) writing both plans, `anchor apply`, writing `_INDEX.md`
//! stubs for the numbered folders that lack one, `anchor frontmatter
//! migrate`, writing gap files, and a re-audit.

use vstd::prelude::*;
use vstd::string::StringExecFns;
use crate::audit::{audit_drift, invalid_utf8_msg, run_audit, schema_outcome, SchemaOutcome};
use crate::audit::drift::{DriftEntry, DriftView, any_blocking, blocking_count, drift_views, has_blocking_drift, informational};
use crate::files::{FileTree, NodeView};
use crate::gap_report::formatter::{GapReportFormatter, gap_files, next_number, rows_sluggable, slug_cut_is_ok, slug_cut_ok, max_canon_number, entry_names};
use crate::orchestrator::anchor_runner::{RunnerError, int_text, i32_text};
use crate::plan::emitter::{MechanicalPlanEmitter, folder_map, identity_field, read_identity_field, planned_cases, planned_fm_ops, planned_main_ops, path_root, main_description, fm_description, corpus_name};
use crate::plan::judgment_iface::DefaultJudgmentEmitter;
use crate::plan::types::{GapReportRow, fm_plan_toml, main_plan_toml, row_views};
use crate::stub::{IndexStub, emit_index_stubs, stub_plan, stub_views};
use crate::files::file_name_of;
use crate::template::LoadedTemplate;
use crate::text::{decimal, usize_text};

verus! {

// ---------------------------------------------------------------------------
// Outcomes
// ---------------------------------------------------------------------------

/// What one pipeline step did.
#[derive(Debug)]
pub enum StepOutcome {
    Audit { drift_count: usize, blocking: bool },
    Plan { main_ops: usize, fm_ops: usize, gap_rows: usize },
    ApplySkipped,
    AnchorApply { main_plan_path: String },
    AnchorApplyFailed { exit_code: i32, diagnostic: String },
    IndexStubs { stubs_written: usize },
    AnchorFmMigrate { fm_plan_path: String },
    AnchorFmMigrateFailed { exit_code: i32, diagnostic: String },
    GapReport { files_written: usize, gap_dir: String },
    ReAudit { residual_drift: usize },
}

/// A step as plain values.
pub enum StepView {
    Audit(usize, bool),
    Plan(usize, usize, usize),
    ApplySkipped,
    AnchorApply(Seq<char>),
    AnchorApplyFailed(i32, Seq<char>),
    IndexStubs(usize),
    AnchorFmMigrate(Seq<char>),
    AnchorFmMigrateFailed(i32, Seq<char>),
    GapReport(usize, Seq<char>),
    ReAudit(usize),
}

impl View for StepOutcome {
    type V = StepView;

    open spec fn view(&self) -> StepView {
        match self {
            StepOutcome::Audit { drift_count, blocking } => StepView::Audit(*drift_count, *blocking),
            StepOutcome::Plan { main_ops, fm_ops, gap_rows } => StepView::Plan(*main_ops, *fm_ops, *gap_rows),
            StepOutcome::ApplySkipped => StepView::ApplySkipped,
            StepOutcome::AnchorApply { main_plan_path } => StepView::AnchorApply(main_plan_path@),
            StepOutcome::AnchorApplyFailed { exit_code, diagnostic } => StepView::AnchorApplyFailed(*exit_code, diagnostic@),
            StepOutcome::IndexStubs { stubs_written } => StepView::IndexStubs(*stubs_written),
            StepOutcome::AnchorFmMigrate { fm_plan_path } => StepView::AnchorFmMigrate(fm_plan_path@),
            StepOutcome::AnchorFmMigrateFailed { exit_code, diagnostic } => StepView::AnchorFmMigrateFailed(*exit_code, diagnostic@),
            StepOutcome::GapReport { files_written, gap_dir } => StepView::GapReport(*files_written, gap_dir@),
            StepOutcome::ReAudit { residual_drift } => StepView::ReAudit(*residual_drift),
        }
    }
}

pub open spec fn step_views(v: Seq<StepOutcome>) -> Seq<StepView> {
    v.map_values(|s: StepOutcome| s@)
}

/// How the pipeline ended: complete with an exit code, or failed at a named
/// step with an error.
#[derive(Debug)]
pub enum OrchestratorOutcome {
    Complete { steps: Vec<StepOutcome>, exit_code: i32 },
    Failed { steps: Vec<StepOutcome>, step_name: String, error: String },
}

/// An outcome as plain values.
pub enum OutcomeView {
    Complete(Seq<StepView>, i32),
    Failed(Seq<StepView>, Seq<char>, Seq<char>),
}

impl View for OrchestratorOutcome {
    type V = OutcomeView;

    open spec fn view(&self) -> OutcomeView {
        match self {
            OrchestratorOutcome::Complete { steps, exit_code } => OutcomeView::Complete(step_views(steps@), *exit_code),
            OrchestratorOutcome::Failed { steps, step_name, error } => OutcomeView::Failed(step_views(steps@), step_name@, error@),
        }
    }
}

/// The exit code of an outcome: its own when complete, 2 when failed.
pub open spec fn outcome_exit_code(o: OutcomeView) -> i32 {
    match o {
        OutcomeView::Complete(_, c) => c,
        OutcomeView::Failed(_, _, _) => 2,
    }
}

pub open spec fn outcome_steps(o: OutcomeView) -> Seq<StepView> {
    match o {
        OutcomeView::Complete(s, _) => s,
        OutcomeView::Failed(s, _, _) => s,
    }
}

impl OrchestratorOutcome {
    /// The process exit code: the recorded one when complete, 2 when failed.
    pub fn exit_code(&self) -> (r: i32)
        ensures
            r == outcome_exit_code(self@),
    {
        match self {
            OrchestratorOutcome::Complete { exit_code, .. } => *exit_code,
            OrchestratorOutcome::Failed { .. } => 2,
        }
    }

    /// The steps taken, in order.
    pub fn steps(&self) -> (r: &[StepOutcome])
        ensures
            step_views(r@) == outcome_steps(self@),
    {
        match self {
            OrchestratorOutcome::Complete { steps, .. } => steps.as_slice(),
            OrchestratorOutcome::Failed { steps, .. } => steps.as_slice(),
        }
    }
}

/// What the pipeline runs on.
#[derive(Debug)]
pub struct OrchestratorConfig {
    pub corpus_path: String,
    pub template: LoadedTemplate,
    pub apply: bool,
    pub gap_report_dir: String,
    pub workspace_root: String,
}

// ---------------------------------------------------------------------------
// The state machine
// ---------------------------------------------------------------------------

/// Where an apply-mode run stands: the outside work it waits for.
#[derive(Debug, Clone, Copy, PartialEq, Eq, Structural)]
pub enum Stage {
    MainWrite,
    FmWrite,
    Apply,
    StubScan,
    StubWrite,
    Migrate,
    GapScan,
    GapWrite,
    ReAudit,
}

/// An apply-mode run in progress.
#[derive(Debug)]
pub struct Pipeline {
    pub stage: Stage,
    pub steps: Vec<StepOutcome>,
    pub main_path: String,
    pub fm_path: String,
    pub main_toml: String,
    pub fm_toml: String,
    pub rows: Vec<GapReportRow>,
    pub gap_files: Vec<(String, String)>,
    pub stubs: Vec<IndexStub>,
}

/// The outside work the pipeline asks for next.
#[derive(Debug)]
pub enum PipelineAction {
    /// Write the structural plan (atomically) to `path`.
    WriteMainPlan { path: String, text: String },
    /// Write the migration plan (atomically) to `path`.
    WriteFmPlan { path: String, text: String },
    /// Run `anchor apply <plan_path>`.
    RunApply { plan_path: String },
    /// Take a fresh snapshot of the corpus at `dir` and report today's date.
    ScanCorpus { dir: String },
    /// Write each `_INDEX.md` stub to its path.
    WriteIndexStubs { stubs: Vec<IndexStub> },
    /// Run `anchor frontmatter migrate <plan_path>`.
    RunFmMigrate { plan_path: String },
    /// List the gap directory.
    ScanGapDir { dir: String },
    /// Create the gap directory and write the files into it.
    WriteGapFiles { dir: String, files: Vec<(String, String)> },
    /// Take a fresh snapshot of the corpus and template for the re-audit.
    ReAudit,
}

/// What the outside work reported.
#[derive(Debug)]
pub enum PipelineEvent {
    MainPlanWritten(Result<(), String>),
    FmPlanWritten(Result<(), String>),
    Applied(Result<(), RunnerError>),
    /// A snapshot of the corpus and today's date (`YYYY-MM-DD`).
    CorpusScanned(FileTree, String),
    IndexStubsWritten(Result<(), String>),
    Migrated(Result<(), RunnerError>),
    GapDirScanned(FileTree),
    GapFilesWritten(Result<(), String>),
    ReAudited(FileTree),
}

/// The next step: continue with outside work, or done.
#[derive(Debug)]
pub enum PipelineStep {
    Continue(Pipeline, PipelineAction),
    Done(OrchestratorOutcome),
}

/// An action as plain values.
pub enum ActionView {
    WriteMainPlan(Seq<char>, Seq<char>),
    WriteFmPlan(Seq<char>, Seq<char>),
    RunApply(Seq<char>),
    ScanCorpus(Seq<char>),
    WriteIndexStubs(Seq<(Seq<char>, Seq<char>)>),
    RunFmMigrate(Seq<char>),
    ScanGapDir(Seq<char>),
    WriteGapFiles(Seq<char>, Seq<(Seq<char>, Seq<char>)>),
    ReAudit,
}

pub open spec fn file_views(v: Seq<(String, String)>) -> Seq<(Seq<char>, Seq<char>)> {
    v.map_values(|f: (String, String)| (f.0@, f.1@))
}

impl View for PipelineAction {
    type V = ActionView;

    open spec fn view(&self) -> ActionView {
        match self {
            PipelineAction::WriteMainPlan { path, text } => ActionView::WriteMainPlan(path@, text@),
            PipelineAction::WriteFmPlan { path, text } => ActionView::WriteFmPlan(path@, text@),
            PipelineAction::RunApply { plan_path } => ActionView::RunApply(plan_path@),
            PipelineAction::ScanCorpus { dir } => ActionView::ScanCorpus(dir@),
            PipelineAction::WriteIndexStubs { stubs } => ActionView::WriteIndexStubs(stub_views(stubs@)),
            PipelineAction::RunFmMigrate { plan_path } => ActionView::RunFmMigrate(plan_path@),
            PipelineAction::ScanGapDir { dir } => ActionView::ScanGapDir(dir@),
            PipelineAction::WriteGapFiles { dir, files } => ActionView::WriteGapFiles(dir@, file_views(files@)),
            PipelineAction::ReAudit => ActionView::ReAudit,
        }
    }
}

/// The action a run at its stage waits on.
pub open spec fn pending_action(config: OrchestratorConfig, p: Pipeline) -> ActionView {
    match p.stage {
        Stage::MainWrite => ActionView::WriteMainPlan(p.main_path@, p.main_toml@),
        Stage::FmWrite => ActionView::WriteFmPlan(p.fm_path@, p.fm_toml@),
        Stage::Apply => ActionView::RunApply(p.main_path@),
        Stage::StubScan => ActionView::ScanCorpus(config.corpus_path@),
        Stage::StubWrite => ActionView::WriteIndexStubs(stub_views(p.stubs@)),
        Stage::Migrate => ActionView::RunFmMigrate(p.fm_path@),
        Stage::GapScan => ActionView::ScanGapDir(config.gap_report_dir@),
        Stage::GapWrite => ActionView::WriteGapFiles(config.gap_report_dir@, file_views(p.gap_files@)),
        Stage::ReAudit => ActionView::ReAudit,
    }
}

/// The message of a failed audit.
pub open spec fn schema_failure_text(so: SchemaOutcome) -> Seq<char> {
    match so {
        SchemaOutcome::Missing(p) => "schema file not found: "@ + p,
        SchemaOutcome::Malformed(m) => "malformed JSON schema: "@ + m,
        _ => "I/O error: "@ + invalid_utf8_msg(),
    }
}

/// The drift of an audit, when the schema loads.
pub open spec fn audit_views(t: Seq<NodeView>, config: OrchestratorConfig) -> Option<Seq<DriftView>> {
    match schema_outcome(t, config.template@) {
        SchemaOutcome::Absent => Some(audit_drift(t, config.corpus_path@, config.template@, None)),
        SchemaOutcome::Loaded(s) => Some(audit_drift(t, config.corpus_path@, config.template@, Some(s))),
        _ => None,
    }
}

/// The first two steps of a run whose audit found `d`.
pub open spec fn first_steps(t: Seq<NodeView>, config: OrchestratorConfig, d: Seq<DriftView>) -> Seq<StepView> {
    let m = folder_map(t, config.template@.dir, config.corpus_path@);
    let root = path_root(config.corpus_path@, Some(config.workspace_root@));
    seq![
        StepView::Audit(blocking_count(d) as usize, any_blocking(d)),
        StepView::Plan(
            planned_main_ops(m, root, d).len() as usize,
            planned_fm_ops(root, d).len() as usize,
            planned_cases(m, d).len() as usize,
        ),
    ]
}

/// How a run starts. A failed audit ends it at step `audit`. In dry-run mode
/// it ends after Audit and Plan with exit code 1 when the drift blocks, else
/// 0, having asked for no outside work. In apply mode it asks for the
/// structural plan to be written to `main_path`, the migration plan being
/// kept for `fm_path`, and the gap rows for later.
pub open spec fn start_result(t: Seq<NodeView>, config: OrchestratorConfig, main_path: Seq<char>, fm_path: Seq<char>, r: PipelineStep) -> bool {
    match audit_views(t, config) {
        None => r matches PipelineStep::Done(o) && o@ == OutcomeView::Failed(
            Seq::empty(),
            "audit"@,
            schema_failure_text(schema_outcome(t, config.template@)),
        ),
        Some(d) => {
            let m = folder_map(t, config.template@.dir, config.corpus_path@);
            let root = path_root(config.corpus_path@, Some(config.workspace_root@));
            let name = corpus_name(config.corpus_path@);
            if !config.apply {
                r matches PipelineStep::Done(o) && o@ == OutcomeView::Complete(
                    first_steps(t, config, d).push(StepView::ApplySkipped),
                    if any_blocking(d) { 1i32 } else { 0i32 },
                )
            } else {
                r matches PipelineStep::Continue(p, a) && p.stage == Stage::MainWrite && step_views(p.steps@) == first_steps(t, config, d)
                    && p.main_path@ == main_path && p.fm_path@ == fm_path
                    && p.main_toml@ == main_plan_toml(Some(main_description(name)), planned_main_ops(m, root, d))
                    && p.fm_toml@ == fm_plan_toml(Some(fm_description(name)), planned_fm_ops(root, d))
                    && row_views(p.rows@) == planned_cases(m, d) && a@ == pending_action(config, p)
            }
        },
    }
}

/// Whether `q` is `p` moved to stage `s` with `extra` steps appended.
pub open spec fn advanced(p: Pipeline, q: Pipeline, s: Stage, extra: Seq<StepView>) -> bool {
    &&& q.stage == s
    &&& step_views(q.steps@) == step_views(p.steps@) + extra
    &&& q.main_path@ == p.main_path@
    &&& q.fm_path@ == p.fm_path@
    &&& q.main_toml@ == p.main_toml@
    &&& q.fm_toml@ == p.fm_toml@
    &&& row_views(q.rows@) == row_views(p.rows@)
}

pub open spec fn continues(config: OrchestratorConfig, p: Pipeline, s: Stage, extra: Seq<StepView>, r: PipelineStep) -> bool {
    r matches PipelineStep::Continue(q, a) && advanced(p, q, s, extra) && a@ == pending_action(config, q)
        && (s != Stage::GapWrite ==> file_views(q.gap_files@) == file_views(p.gap_files@))
        && (s != Stage::StubWrite ==> stub_views(q.stubs@) == stub_views(p.stubs@))
}

/// The `engine` a corpus's stubs carry: the `engine` field of its identity
/// index, else the corpus folder's name.
pub open spec fn stub_engine(t: Seq<NodeView>, corpus: Seq<char>) -> Seq<char> {
    match identity_field(t, corpus, "engine"@) {
        Some(e) => e,
        None => corpus_name(corpus),
    }
}

pub open spec fn fails(p: Pipeline, extra: Seq<StepView>, step: Seq<char>, error: Seq<char>, r: PipelineStep) -> bool {
    r matches PipelineStep::Done(o) && o@ == OutcomeView::Failed(step_views(p.steps@) + extra, step, error)
}

pub open spec fn apply_failed_text(e: RunnerError) -> Seq<char> {
    "anchor apply exited "@ + int_text(e.exit_code as int) + " — "@ + e.diagnostic@
}

pub open spec fn migrate_failed_text(e: RunnerError) -> Seq<char> {
    "anchor frontmatter migrate exited "@ + int_text(e.exit_code as int) + " — "@ + e.diagnostic@
}

pub open spec fn unnamable_rows_text() -> Seq<char> {
    "I/O error: a gap row description cannot be cut into a file name"@
}

/// One transition. Each outside step that fails ends the run at that step
/// (`write-main-plan`, `write-fm-plan`, `anchor-apply`, `index-stubs`,
/// `anchor-fm-migrate`, `gap-report`, `re-audit`); anchor failures record
/// their exit code and diagnostic first. After the structural apply, the
/// corpus is scanned afresh and an `_INDEX.md` stub is written for every
/// numbered folder directly under it that has none (see `stub_plan`). A
/// successful run ends after the re-audit with exit code 1 when blocking
/// drift remains, else 0. An event the stage does not wait for changes
/// nothing and repeats the pending action.
pub open spec fn step_result(config: OrchestratorConfig, p: Pipeline, ev: PipelineEvent, r: PipelineStep) -> bool {
    match (p.stage, ev) {
        (Stage::MainWrite, PipelineEvent::MainPlanWritten(Err(e))) => fails(p, Seq::empty(), "write-main-plan"@, "I/O error: "@ + e@, r),
        (Stage::MainWrite, PipelineEvent::MainPlanWritten(Ok(()))) => continues(config, p, Stage::FmWrite, Seq::empty(), r),
        (Stage::FmWrite, PipelineEvent::FmPlanWritten(Err(e))) => fails(p, Seq::empty(), "write-fm-plan"@, "I/O error: "@ + e@, r),
        (Stage::FmWrite, PipelineEvent::FmPlanWritten(Ok(()))) => continues(config, p, Stage::Apply, Seq::empty(), r),
        (Stage::Apply, PipelineEvent::Applied(Err(e))) => fails(
            p,
            seq![StepView::AnchorApplyFailed(e.exit_code, e.diagnostic@)],
            "anchor-apply"@,
            apply_failed_text(e),
            r,
        ),
        (Stage::Apply, PipelineEvent::Applied(Ok(()))) => continues(config, p, Stage::StubScan, seq![StepView::AnchorApply(p.main_path@)], r),
        (Stage::StubScan, PipelineEvent::CorpusScanned(t, today)) => continues(config, p, Stage::StubWrite, Seq::empty(), r)
            && (r matches PipelineStep::Continue(q, _) && stub_views(q.stubs@) == stub_plan(
            t@,
            config.corpus_path@,
            stub_engine(t@, config.corpus_path@),
            today@,
        )),
        (Stage::StubWrite, PipelineEvent::IndexStubsWritten(Err(e))) => fails(p, Seq::empty(), "index-stubs"@, "I/O error: "@ + e@, r),
        (Stage::StubWrite, PipelineEvent::IndexStubsWritten(Ok(()))) => continues(
            config,
            p,
            Stage::Migrate,
            seq![StepView::IndexStubs(p.stubs@.len() as usize)],
            r,
        ),
        (Stage::Migrate, PipelineEvent::Migrated(Err(e))) => fails(
            p,
            seq![StepView::AnchorFmMigrateFailed(e.exit_code, e.diagnostic@)],
            "anchor-fm-migrate"@,
            migrate_failed_text(e),
            r,
        ),
        (Stage::Migrate, PipelineEvent::Migrated(Ok(()))) => continues(config, p, Stage::GapScan, seq![StepView::AnchorFmMigrate(p.fm_path@)], r),
        (Stage::GapScan, PipelineEvent::GapDirScanned(t)) => if rows_sluggable(row_views(p.rows@)) && p.rows@.len() <= 0xffff_fffe_0000_0000u64 {
            continues(config, p, Stage::GapWrite, Seq::empty(), r) && (r matches PipelineStep::Continue(q, _) && file_views(q.gap_files@)
                == gap_files(config.gap_report_dir@, next_number(t@, config.gap_report_dir@), row_views(p.rows@)))
        } else {
            fails(p, Seq::empty(), "gap-report"@, unnamable_rows_text(), r)
        },
        (Stage::GapWrite, PipelineEvent::GapFilesWritten(Err(e))) => fails(p, Seq::empty(), "gap-report"@, "I/O error: "@ + e@, r),
        (Stage::GapWrite, PipelineEvent::GapFilesWritten(Ok(()))) => continues(
            config,
            p,
            Stage::ReAudit,
            seq![StepView::GapReport(p.rows@.len() as usize, config.gap_report_dir@)],
            r,
        ),
        (Stage::ReAudit, PipelineEvent::ReAudited(t)) => match audit_views(t@, config) {
            None => fails(p, Seq::empty(), "re-audit"@, schema_failure_text(schema_outcome(t@, config.template@)), r),
            Some(d) => r matches PipelineStep::Done(o) && o@ == OutcomeView::Complete(
                step_views(p.steps@).push(StepView::ReAudit(blocking_count(d) as usize)),
                if blocking_count(d) > 0 { 1i32 } else { 0i32 },
            ),
        },
        _ => continues(config, p, p.stage, Seq::empty(), r) && file_views(r->Continue_0.gap_files@) == file_views(p.gap_files@)
            && stub_views(r->Continue_0.stubs@) == stub_views(p.stubs@),
    }
}

/// The number of blocking (non-informational) entries.
pub fn count_blocking(entries: &Vec<DriftEntry>) -> (r: usize)
    ensures
        r == blocking_count(drift_views(entries@)),
{
    let ghost dv = drift_views(entries@);
    let mut n: usize = 0;
    for i in 0..entries.len()
        invariant
            dv == drift_views(entries@),
            n == blocking_count(dv.take(i as int)),
            n <= i,
    {
        proof {
            assert(dv.take(i + 1).drop_last() =~= dv.take(i as int));
            assert(dv.take(i + 1).last() == entries@[i as int]@);
        }
        if !entries[i].category.is_informational() {
            n += 1;
        }
    }
    proof {
        assert(dv.take(dv.len() as int) =~= dv);
    }
    n
}

fn push_step(steps: &mut Vec<StepOutcome>, s: StepOutcome)
    ensures
        step_views(final(steps)@) == step_views(old(steps)@).push(s@),
{
    steps.push(s);
    proof {
        assert(step_views(steps@) =~= step_views(old(steps)@).push(s@));
    }
}

/// Starts a run: audits the corpus, emits the plans, and either ends (dry
/// run, or a failed audit) or asks for the first piece of outside work.
pub fn pipeline_start(config: &OrchestratorConfig, tree: &FileTree, main_path: String, fm_path: String) -> (r: PipelineStep)
    ensures
        start_result(tree@, *config, main_path@, fm_path@, r),
{
    let mut steps: Vec<StepOutcome> = Vec::new();
    let drift = match run_audit(config.corpus_path.as_str(), &config.template, tree) {
        Ok(d) => d,
        Err(e) => {
            let msg = e.message();
            proof {
                assert(step_views(steps@) =~= Seq::<StepView>::empty());
            }
            return PipelineStep::Done(OrchestratorOutcome::Failed { steps, step_name: String::from_str("audit"), error: msg });
        },
    };
    let ghost d = drift_views(drift@);
    let blocking = has_blocking_drift(drift.as_slice());
    let drift_count = count_blocking(&drift);
    push_step(&mut steps, StepOutcome::Audit { drift_count, blocking });
    let judgment_emitter = DefaultJudgmentEmitter;
    let plan_emitter = MechanicalPlanEmitter::new(&judgment_emitter);
    let emission = match plan_emitter.emit_with_root(
        config.corpus_path.as_str(),
        drift.as_slice(),
        &config.template,
        Some(config.workspace_root.as_str()),
        tree,
    ) {
        Ok(em) => em,
        Err(e) => {
            let msg = e.message();
            return PipelineStep::Done(OrchestratorOutcome::Failed { steps, step_name: String::from_str("plan-emit"), error: msg });
        },
    };
    push_step(
        &mut steps,
        StepOutcome::Plan { main_ops: emission.main_plan.ops.len(), fm_ops: emission.fm_plan.ops.len(), gap_rows: emission.gap_rows.len() },
    );
    proof {
        assert(step_views(steps@) =~= first_steps(tree@, *config, d));
    }
    if !config.apply {
        push_step(&mut steps, StepOutcome::ApplySkipped);
        let exit_code: i32 = if blocking { 1 } else { 0 };
        return PipelineStep::Done(OrchestratorOutcome::Complete { steps, exit_code });
    }
    let main_toml = emission.main_plan.render_toml();
    let fm_toml = emission.fm_plan.render_toml();
    let action = PipelineAction::WriteMainPlan { path: main_path.clone(), text: main_toml.clone() };
    let p = Pipeline {
        stage: Stage::MainWrite,
        steps,
        main_path,
        fm_path,
        main_toml,
        fm_toml,
        rows: emission.gap_rows,
        gap_files: Vec::new(),
        stubs: Vec::new(),
    };
    PipelineStep::Continue(p, action)
}

fn pending(config: &OrchestratorConfig, p: &Pipeline) -> (r: PipelineAction)
    ensures
        r@ == pending_action(*config, *p),
{
    match p.stage {
        Stage::MainWrite => PipelineAction::WriteMainPlan { path: p.main_path.clone(), text: p.main_toml.clone() },
        Stage::FmWrite => PipelineAction::WriteFmPlan { path: p.fm_path.clone(), text: p.fm_toml.clone() },
        Stage::Apply => PipelineAction::RunApply { plan_path: p.main_path.clone() },
        Stage::StubScan => PipelineAction::ScanCorpus { dir: config.corpus_path.clone() },
        Stage::StubWrite => {
            let mut stubs: Vec<IndexStub> = Vec::new();
            for i in 0..p.stubs.len()
                invariant
                    stub_views(stubs@) == stub_views(p.stubs@.take(i as int)),
            {
                let ghost before = stubs@;
                stubs.push(IndexStub { path: p.stubs[i].path.clone(), content: p.stubs[i].content.clone() });
                proof {
                    assert(stub_views(stubs@) =~= stub_views(before).push((p.stubs@[i as int].path@, p.stubs@[i as int].content@)));
                    assert(stub_views(p.stubs@.take(i + 1)) =~= stub_views(p.stubs@.take(i as int)).push(
                        (p.stubs@[i as int].path@, p.stubs@[i as int].content@),
                    ));
                }
            }
            proof {
                assert(p.stubs@.take(p.stubs@.len() as int) =~= p.stubs@);
            }
            PipelineAction::WriteIndexStubs { stubs }
        },
        Stage::Migrate => PipelineAction::RunFmMigrate { plan_path: p.fm_path.clone() },
        Stage::GapScan => PipelineAction::ScanGapDir { dir: config.gap_report_dir.clone() },
        Stage::GapWrite => {
            let mut files: Vec<(String, String)> = Vec::new();
            for i in 0..p.gap_files.len()
                invariant
                    file_views(files@) == file_views(p.gap_files@.take(i as int)),
            {
                let ghost before = files@;
                files.push((p.gap_files[i].0.clone(), p.gap_files[i].1.clone()));
                proof {
                    assert(file_views(files@) =~= file_views(before).push((p.gap_files@[i as int].0@, p.gap_files@[i as int].1@)));
                    assert(file_views(p.gap_files@.take(i + 1)) =~= file_views(p.gap_files@.take(i as int)).push(
                        (p.gap_files@[i as int].0@, p.gap_files@[i as int].1@),
                    ));
                }
            }
            proof {
                assert(p.gap_files@.take(p.gap_files@.len() as int) =~= p.gap_files@);
            }
            PipelineAction::WriteGapFiles { dir: config.gap_report_dir.clone(), files }
        },
        Stage::ReAudit => PipelineAction::ReAudit,
    }
}

/// The `engine` a corpus's stubs carry.
fn corpus_engine(corpus: &str, t: &FileTree) -> (r: String)
    ensures
        r@ == stub_engine(t@, corpus@),
{
    match read_identity_field(corpus, "engine", t) {
        Some(e) => e,
        None => match file_name_of(corpus) {
            Some(n) => n,
            None => String::new(),
        },
    }
}

fn io_failure(e: &String) -> (r: String)
    ensures
        r@ == "I/O error: "@ + e@,
{
    let mut s = String::from_str("I/O error: ");
    s.append(e.as_str());
    s
}

fn runner_failure(prefix: &str, e: &RunnerError) -> (r: String)
    ensures
        r@ == prefix@ + int_text(e.exit_code as int) + " — "@ + e.diagnostic@,
{
    let mut s = prefix.to_string();
    let c = i32_text(e.exit_code);
    s.append(c.as_str());
    s.append(" — ");
    s.append(e.diagnostic.as_str());
    s
}

proof fn lemma_max_canon_number_bound(names: Seq<Seq<char>>)
    ensures
        max_canon_number(names) <= u32::MAX,
    decreases names.len(),
{
    if names.len() > 0 {
        lemma_max_canon_number_bound(names.drop_last());
    }
}

/// Whether every row's description can be cut into a slug.
fn rows_can_be_named(rows: &Vec<GapReportRow>) -> (r: bool)
    ensures
        r == rows_sluggable(row_views(rows@)),
{
    for i in 0..rows.len()
        invariant
            forall|k: int| 0 <= k < i ==> slug_cut_ok(#[trigger] row_views(rows@)[k].description),
    {
        proof {
            assert(row_views(rows@)[i as int] == rows@[i as int]@);
        }
        if !slug_cut_is_ok(rows[i].description.as_str()) {
            proof {
                assert(!slug_cut_ok(row_views(rows@)[i as int].description));
            }
            return false;
        }
    }
    true
}

/// Advances a run by what the outside work reported.
pub fn pipeline_step(config: &OrchestratorConfig, p: Pipeline, ev: PipelineEvent) -> (r: PipelineStep)
    ensures
        step_result(*config, p, ev, r),
{
    let mut p = p;
    let ghost p0 = p;
    match (p.stage, ev) {
        (Stage::MainWrite, PipelineEvent::MainPlanWritten(res)) => match res {
            Err(e) => {
                let msg = io_failure(&e);
                proof {
                    assert(step_views(p.steps@) =~= step_views(p0.steps@) + Seq::<StepView>::empty());
                }
                PipelineStep::Done(OrchestratorOutcome::Failed { steps: p.steps, step_name: String::from_str("write-main-plan"), error: msg })
            },
            Ok(()) => {
                p.stage = Stage::FmWrite;
                proof {
                    assert(step_views(p.steps@) =~= step_views(p0.steps@) + Seq::<StepView>::empty());
                }
                let a = pending(config, &p);
                PipelineStep::Continue(p, a)
            },
        },
        (Stage::FmWrite, PipelineEvent::FmPlanWritten(res)) => match res {
            Err(e) => {
                let msg = io_failure(&e);
                proof {
                    assert(step_views(p.steps@) =~= step_views(p0.steps@) + Seq::<StepView>::empty());
                }
                PipelineStep::Done(OrchestratorOutcome::Failed { steps: p.steps, step_name: String::from_str("write-fm-plan"), error: msg })
            },
            Ok(()) => {
                p.stage = Stage::Apply;
                proof {
                    assert(step_views(p.steps@) =~= step_views(p0.steps@) + Seq::<StepView>::empty());
                }
                let a = pending(config, &p);
                PipelineStep::Continue(p, a)
            },
        },
        (Stage::Apply, PipelineEvent::Applied(res)) => match res {
            Err(e) => {
                let msg = runner_failure("anchor apply exited ", &e);
                push_step(&mut p.steps, StepOutcome::AnchorApplyFailed { exit_code: e.exit_code, diagnostic: e.diagnostic.clone() });
                proof {
                    assert(step_views(p.steps@) =~= step_views(p0.steps@) + seq![StepView::AnchorApplyFailed(e.exit_code, e.diagnostic@)]);
                }
                PipelineStep::Done(OrchestratorOutcome::Failed { steps: p.steps, step_name: String::from_str("anchor-apply"), error: msg })
            },
            Ok(()) => {
                let mp = p.main_path.clone();
                push_step(&mut p.steps, StepOutcome::AnchorApply { main_plan_path: mp });
                proof {
                    assert(step_views(p.steps@) =~= step_views(p0.steps@) + seq![StepView::AnchorApply(p0.main_path@)]);
                }
                p.stage = Stage::StubScan;
                let a = pending(config, &p);
                PipelineStep::Continue(p, a)
            },
        },
        (Stage::StubScan, PipelineEvent::CorpusScanned(t, today)) => {
            let engine = corpus_engine(config.corpus_path.as_str(), &t);
            let stubs = emit_index_stubs(config.corpus_path.as_str(), engine.as_str(), today.as_str(), &t);
            p.stubs = stubs;
            p.stage = Stage::StubWrite;
            proof {
                assert(step_views(p.steps@) =~= step_views(p0.steps@) + Seq::<StepView>::empty());
            }
            let a = pending(config, &p);
            PipelineStep::Continue(p, a)
        },
        (Stage::StubWrite, PipelineEvent::IndexStubsWritten(res)) => match res {
            Err(e) => {
                let msg = io_failure(&e);
                proof {
                    assert(step_views(p.steps@) =~= step_views(p0.steps@) + Seq::<StepView>::empty());
                }
                PipelineStep::Done(OrchestratorOutcome::Failed { steps: p.steps, step_name: String::from_str("index-stubs"), error: msg })
            },
            Ok(()) => {
                let n = p.stubs.len();
                push_step(&mut p.steps, StepOutcome::IndexStubs { stubs_written: n });
                proof {
                    assert(step_views(p.steps@) =~= step_views(p0.steps@) + seq![StepView::IndexStubs(p0.stubs@.len() as usize)]);
                }
                p.stage = Stage::Migrate;
                let a = pending(config, &p);
                PipelineStep::Continue(p, a)
            },
        },
        (Stage::Migrate, PipelineEvent::Migrated(res)) => match res {
            Err(e) => {
                let msg = runner_failure("anchor frontmatter migrate exited ", &e);
                push_step(&mut p.steps, StepOutcome::AnchorFmMigrateFailed { exit_code: e.exit_code, diagnostic: e.diagnostic.clone() });
                proof {
                    assert(step_views(p.steps@) =~= step_views(p0.steps@) + seq![StepView::AnchorFmMigrateFailed(e.exit_code, e.diagnostic@)]);
                }
                PipelineStep::Done(OrchestratorOutcome::Failed { steps: p.steps, step_name: String::from_str("anchor-fm-migrate"), error: msg })
            },
            Ok(()) => {
                let fp = p.fm_path.clone();
                push_step(&mut p.steps, StepOutcome::AnchorFmMigrate { fm_plan_path: fp });
                proof {
                    assert(step_views(p.steps@) =~= step_views(p0.steps@) + seq![StepView::AnchorFmMigrate(p0.fm_path@)]);
                }
                p.stage = Stage::GapScan;
                let a = pending(config, &p);
                PipelineStep::Continue(p, a)
            },
        },
        (Stage::GapScan, PipelineEvent::GapDirScanned(t)) => {
            if !rows_can_be_named(&p.rows) {
                proof {
                    assert(step_views(p.steps@) =~= step_views(p0.steps@) + Seq::<StepView>::empty());
                }
                return PipelineStep::Done(OrchestratorOutcome::Failed {
                    steps: p.steps,
                    step_name: String::from_str("gap-report"),
                    error: String::from_str("I/O error: a gap row description cannot be cut into a file name"),
                });
            }
            let formatter = GapReportFormatter::new(config.gap_report_dir.as_str(), &t);
            proof {
                lemma_max_canon_number_bound(entry_names(t@, config.gap_report_dir@));
            }
            if p.rows.len() as u64 > 0xffff_fffe_0000_0000u64 {
                proof {
                    assert(step_views(p.steps@) =~= step_views(p0.steps@) + Seq::<StepView>::empty());
                }
                return PipelineStep::Done(OrchestratorOutcome::Failed {
                    steps: p.steps,
                    step_name: String::from_str("gap-report"),
                    error: String::from_str("I/O error: a gap row description cannot be cut into a file name"),
                });
            }
            let files = formatter.planned_files(p.rows.as_slice());
            p.gap_files = files;
            p.stage = Stage::GapWrite;
            proof {
                assert(step_views(p.steps@) =~= step_views(p0.steps@) + Seq::<StepView>::empty());
            }
            let a = pending(config, &p);
            PipelineStep::Continue(p, a)
        },
        (Stage::GapWrite, PipelineEvent::GapFilesWritten(res)) => match res {
            Err(e) => {
                let msg = io_failure(&e);
                proof {
                    assert(step_views(p.steps@) =~= step_views(p0.steps@) + Seq::<StepView>::empty());
                }
                PipelineStep::Done(OrchestratorOutcome::Failed { steps: p.steps, step_name: String::from_str("gap-report"), error: msg })
            },
            Ok(()) => {
                let n = p.rows.len();
                push_step(&mut p.steps, StepOutcome::GapReport { files_written: n, gap_dir: config.gap_report_dir.clone() });
                proof {
                    assert(step_views(p.steps@) =~= step_views(p0.steps@) + seq![StepView::GapReport(p0.rows@.len() as usize, config.gap_report_dir@)]);
                }
                p.stage = Stage::ReAudit;
                let a = pending(config, &p);
                PipelineStep::Continue(p, a)
            },
        },
        (Stage::ReAudit, PipelineEvent::ReAudited(t)) => {
            match run_audit(config.corpus_path.as_str(), &config.template, &t) {
                Err(e) => {
                    let msg = e.message();
                    proof {
                        assert(step_views(p.steps@) =~= step_views(p0.steps@) + Seq::<StepView>::empty());
                    }
                    PipelineStep::Done(OrchestratorOutcome::Failed { steps: p.steps, step_name: String::from_str("re-audit"), error: msg })
                },
                Ok(d) => {
                    let residual = count_blocking(&d);
                    push_step(&mut p.steps, StepOutcome::ReAudit { residual_drift: residual });
                    let exit_code: i32 = if residual > 0 { 1 } else { 0 };
                    PipelineStep::Done(OrchestratorOutcome::Complete { steps: p.steps, exit_code })
                },
            }
        },
        _ => {
            proof {
                assert(step_views(p.steps@) =~= step_views(p0.steps@) + Seq::<StepView>::empty());
            }
            let a = pending(config, &p);
            PipelineStep::Continue(p, a)
        },
    }
}

} // verus!

verus! {

// ---------------------------------------------------------------------------
// Summary rendering
// ---------------------------------------------------------------------------

/// The summary line of one step.
pub open spec fn step_line(s: StepView) -> Seq<char> {
    match s {
        StepView::Audit(n, blocking) => "  audit: "@ + decimal(n as nat) + " blocking drift item(s)"@ + (if blocking {
            " [blocking]"@
        } else {
            Seq::empty()
        }) + "\n"@,
        StepView::Plan(m, f, g) => "  plan: "@ + decimal(m as nat) + " structural op(s), "@ + decimal(f as nat) + " FM op(s), "@
            + decimal(g as nat) + " gap row(s)\n"@,
        StepView::ApplySkipped => "  apply: skipped (dry-run)\n"@,
        StepView::AnchorApply(_) => "  anchor apply: OK\n"@,
        StepView::AnchorApplyFailed(_, d) => "  anchor apply: FAILED — "@ + d + "\n"@,
        StepView::IndexStubs(n) => "  index stubs: "@ + decimal(n as nat) + " _INDEX.md stub(s) written\n"@,
        StepView::AnchorFmMigrate(_) => "  anchor frontmatter migrate: OK\n"@,
        StepView::AnchorFmMigrateFailed(_, d) => "  anchor frontmatter migrate: FAILED — "@ + d + "\n"@,
        StepView::GapReport(n, dir) => "  gap-report: "@ + decimal(n as nat) + " file(s) written to '"@ + dir + "'\n"@,
        StepView::ReAudit(n) => if n > 0 {
            "  re-audit: "@ + decimal(n as nat) + " residual blocking drift item(s) remain\n"@
        } else {
            "  re-audit: clean — no residual drift\n"@
        },
    }
}

/// The summary of the steps, one line each, in order.
pub open spec fn summary_text(steps: Seq<StepView>) -> Seq<char>
    decreases steps.len(),
{
    if steps.len() == 0 {
        Seq::empty()
    } else {
        summary_text(steps.drop_last()) + step_line(steps.last())
    }
}

fn step_line_text(s: &StepOutcome) -> (r: String)
    ensures
        r@ == step_line(s@),
{
    match s {
        StepOutcome::Audit { drift_count, blocking } => {
            let mut t = String::from_str("  audit: ");
            let n = usize_text(*drift_count);
            t.append(n.as_str());
            t.append(" blocking drift item(s)");
            if *blocking {
                t.append(" [blocking]");
            }
            t.append("\n");
            t
        },
        StepOutcome::Plan { main_ops, fm_ops, gap_rows } => {
            let mut t = String::from_str("  plan: ");
            let a = usize_text(*main_ops);
            t.append(a.as_str());
            t.append(" structural op(s), ");
            let b = usize_text(*fm_ops);
            t.append(b.as_str());
            t.append(" FM op(s), ");
            let c = usize_text(*gap_rows);
            t.append(c.as_str());
            t.append(" gap row(s)\n");
            t
        },
        StepOutcome::ApplySkipped => String::from_str("  apply: skipped (dry-run)\n"),
        StepOutcome::AnchorApply { .. } => String::from_str("  anchor apply: OK\n"),
        StepOutcome::AnchorApplyFailed { diagnostic, .. } => {
            let mut t = String::from_str("  anchor apply: FAILED — ");
            t.append(diagnostic.as_str());
            t.append("\n");
            t
        },
        StepOutcome::IndexStubs { stubs_written } => {
            let mut t = String::from_str("  index stubs: ");
            let n = usize_text(*stubs_written);
            t.append(n.as_str());
            t.append(" _INDEX.md stub(s) written\n");
            t
        },
        StepOutcome::AnchorFmMigrate { .. } => String::from_str("  anchor frontmatter migrate: OK\n"),
        StepOutcome::AnchorFmMigrateFailed { diagnostic, .. } => {
            let mut t = String::from_str("  anchor frontmatter migrate: FAILED — ");
            t.append(diagnostic.as_str());
            t.append("\n");
            t
        },
        StepOutcome::GapReport { files_written, gap_dir } => {
            let mut t = String::from_str("  gap-report: ");
            let n = usize_text(*files_written);
            t.append(n.as_str());
            t.append(" file(s) written to '");
            t.append(gap_dir.as_str());
            t.append("'\n");
            t
        },
        StepOutcome::ReAudit { residual_drift } => {
            if *residual_drift > 0 {
                let mut t = String::from_str("  re-audit: ");
                let n = usize_text(*residual_drift);
                t.append(n.as_str());
                t.append(" residual blocking drift item(s) remain\n");
                t
            } else {
                String::from_str("  re-audit: clean — no residual drift\n")
            }
        },
    }
}

/// Appends the summary of an outcome's steps to `out`, one line per step.
pub fn print_pipeline_summary(outcome: &OrchestratorOutcome, out: &mut String)
    ensures
        final(out)@ == old(out)@ + summary_text(outcome_steps(outcome@)),
{
    let steps = outcome.steps();
    let ghost sv = step_views(steps@);
    let ghost start = out@;
    for i in 0..steps.len()
        invariant
            sv == step_views(steps@),
            sv == outcome_steps(outcome@),
            start == old(out)@,
            out@ == start + summary_text(sv.take(i as int)),
    {
        proof {
            assert(sv.take(i + 1).drop_last() =~= sv.take(i as int));
            assert(sv.take(i + 1).last() == steps@[i as int]@);
        }
        let line = step_line_text(&steps[i]);
        out.append(line.as_str());
        proof {
            assert(out@ =~= start + summary_text(sv.take(i + 1)));
        }
    }
    proof {
        assert(sv.take(sv.len() as int) =~= sv);
    }
}

} // verus!
