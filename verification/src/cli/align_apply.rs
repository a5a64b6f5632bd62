//! `canon align [--apply]`: the align pipeline.

use vstd::prelude::*;
use vstd::string::StringExecFns;
use crate::cli::audit::{corpus_missing_msg, line, load_cli_template, resolve_src_path, resolved_src, spec_template, template_failure_msg};
use crate::files::{FileTree, NodeView, join_path, path_join};
use crate::orchestrator::anchor_runner::{AnchorMissingError, AnchorRunner};
use crate::orchestrator::pipeline::{OrchestratorConfig, OrchestratorOutcome, OutcomeView, PipelineStep, outcome_exit_code, outcome_steps, pipeline_start, print_pipeline_summary, start_result, summary_text};
use crate::template::LoadedTemplate;
use crate::template::manifest::{TemplateView, gaps_folder_of};

verus! {

/// The help text of `canon align [--apply]`.
pub const ALIGN_APPLY_HELP: &'static str = "USAGE:\n  canon align <corpus-path> --template <name|path> [--apply] [--gap-report-dir <path>]\n\nARGS:\n  <corpus-path>   Directory to align\n\nOPTIONS:\n--template, -t        Template name or explicit path (required)\n--apply               Execute via anchor + write gap report (default: dry-run)\n--gap-report-dir      Gap report output directory (default: template gaps_folder or '41-gaps')\n\nEXIT CODES:\n  0  Conformant / apply succeeded with no residual drift\n1  Drift found (plan available) or residual drift after apply\n  2  Error\n\nNOTES:\nWithout --apply, prints a plan summary and gap-report preview.\nWith --apply, requires anchor v0.6.0+ (AENG-006). Invokes:\n1. anchor apply <main-plan.toml>\n2. anchor frontmatter migrate <fm-plan.toml>\nThen writes gap files for judgment cases and re-audits for residual drift.";

/// Writes the help of `canon align [--apply]`.
pub fn print_help(out: &mut String)
    ensures
        final(out)@ == old(out)@ + ALIGN_APPLY_HELP@ + "\n"@,
{
    out.append(ALIGN_APPLY_HELP);
    out.append("\n");
}

/// Checks that anchor's frontmatter support is there before an apply run;
/// the runner's answer is handed on as it is.
pub fn check_anchor_frontmatter<R: AnchorRunner>(runner: &R) -> (r: Result<(), AnchorMissingError>)
    ensures
        runner.capability_outcome(r),
{
    runner.check_frontmatter_capability()
}

/// The gap-report directory: the explicit one, else the template's gaps
/// folder under the corpus, else `41-gaps` under the corpus.
pub open spec fn gap_dir_of(explicit: Option<Seq<char>>, corpus: Seq<char>, tv: TemplateView) -> Seq<char> {
    match explicit {
        Some(s) => s,
        None => path_join(
            corpus,
            match gaps_folder_of(tv.manifest) {
                Some(g) => g,
                None => "41-gaps"@,
            },
        ),
    }
}

fn resolve_gap_report_dir(explicit: Option<&str>, corpus_path: &str, template: &crate::template::LoadedTemplate) -> (r: String)
    ensures
        r@ == gap_dir_of(match explicit { Some(s) => Some(s@), None => None }, corpus_path@, template@),
{
    match explicit {
        Some(s) => s.to_string(),
        None => {
            let folder: &str = match &template.manifest.invariants {
                Some(inv) => match &inv.gaps_folder {
                    Some(g) => g.as_str(),
                    None => "41-gaps",
                },
                None => "41-gaps",
            };
            join_path(corpus_path, folder)
        },
    }
}

/// How `canon align [--apply]` starts.
#[derive(Debug)]
pub enum ApplyRun {
    /// Ended before the pipeline, with this exit code.
    Exit(i32),
    /// The pipeline started on this configuration.
    Started(OrchestratorConfig, PipelineStep),
}

/// How the run goes on once the corpus `c` and template `tv` are known and
/// the capability check answered `cap` (not asked in dry-run mode): a
/// refusal in apply mode exits 2 with its message; otherwise the pipeline
/// starts with the gap directory resolved.
pub open spec fn started_result(
    t: Seq<NodeView>,
    c: Seq<char>,
    tv: TemplateView,
    apply: bool,
    gap_dir: Option<Seq<char>>,
    ws: Seq<char>,
    cap: Result<(), AnchorMissingError>,
    main_path: Seq<char>,
    fm_path: Seq<char>,
    r: ApplyRun,
    err0: Seq<char>,
    err1: Seq<char>,
) -> bool {
    if apply && cap is Err {
        r == ApplyRun::Exit(2) && err1 =~= err0 + line("error: "@ + cap->Err_0.message@)
    } else {
        err1 == err0 && (r matches ApplyRun::Started(cfg, step) && cfg.corpus_path@ == c && cfg.template@ == tv && cfg.apply == apply
            && cfg.gap_report_dir@ == gap_dir_of(gap_dir, c, tv) && cfg.workspace_root@ == ws && start_result(t, cfg, main_path, fm_path, step))
    }
}

/// What `canon align [--apply]` does up to the first outside work: resolve
/// the corpus, load the template, in apply mode ask `runner` for anchor's
/// capability, and go on as `started_result` says for the answer it gave
/// (one its `capability_outcome` allows). A dry run asks nothing.
pub open spec fn apply_run_result<R: AnchorRunner>(
    runner: R,
    t: Seq<NodeView>,
    corpus_str: Seq<char>,
    spec: Seq<char>,
    apply: bool,
    gap_dir: Option<Seq<char>>,
    ws: Seq<char>,
    cwd: Seq<char>,
    user_dir: Seq<char>,
    main_path: Seq<char>,
    fm_path: Seq<char>,
    r: ApplyRun,
    err0: Seq<char>,
    err1: Seq<char>,
) -> bool {
    match resolved_src(t, corpus_str, ws, cwd) {
        None => r == ApplyRun::Exit(2) && err1 =~= err0 + corpus_missing_msg(corpus_str, ws),
        Some(c) => match spec_template(t, ws, user_dir, spec) {
            Err(e) => r == ApplyRun::Exit(2) && err1 =~= err0 + template_failure_msg(e),
            Ok(tv) => exists|cap: Result<(), AnchorMissingError>|
                (if apply { runner.capability_outcome(cap) } else { cap is Ok })
                    && #[trigger] started_result(t, c, tv, apply, gap_dir, ws, cap, main_path, fm_path, r, err0, err1),
        },
    }
}

/// Goes on with a resolved corpus and a loaded template once the capability
/// check answered `capability` (ignored in dry-run mode).
pub fn start_after_check(
    corpus_path: String,
    template: LoadedTemplate,
    apply: bool,
    gap_report_dir: Option<&str>,
    workspace_root: &str,
    capability: Result<(), AnchorMissingError>,
    tree: &FileTree,
    main_plan_path: String,
    fm_plan_path: String,
    err: &mut String,
) -> (r: ApplyRun)
    ensures
        started_result(
            tree@,
            corpus_path@,
            template@,
            apply,
            match gap_report_dir { Some(s) => Some(s@), None => None },
            workspace_root@,
            capability,
            main_plan_path@,
            fm_plan_path@,
            r,
            old(err)@,
            final(err)@,
        ),
{
    if apply {
        match &capability {
            Err(e) => {
                err.append("error: ");
                err.append(e.message.as_str());
                err.append("\n");
                return ApplyRun::Exit(2);
            },
            Ok(_) => {},
        }
    }
    let resolved_gap_dir = resolve_gap_report_dir(gap_report_dir, corpus_path.as_str(), &template);
    let config = OrchestratorConfig {
        corpus_path,
        template,
        apply,
        gap_report_dir: resolved_gap_dir,
        workspace_root: workspace_root.to_string(),
    };
    let step = pipeline_start(&config, tree, main_plan_path, fm_plan_path);
    ApplyRun::Started(config, step)
}

/// Runs `canon align [--apply]` on a snapshot up to the first outside work.
/// `main_plan_path` and `fm_plan_path` are where apply mode writes the plans.
pub fn run_impl<R: AnchorRunner>(
    corpus_path_str: &str,
    template_spec: &str,
    apply: bool,
    gap_report_dir: Option<&str>,
    workspace_root: &str,
    cwd: &str,
    user_dir: &str,
    anchor_runner: &R,
    tree: &FileTree,
    main_plan_path: String,
    fm_plan_path: String,
    err: &mut String,
) -> (r: ApplyRun)
    ensures
        apply_run_result(
            *anchor_runner,
            tree@,
            corpus_path_str@,
            template_spec@,
            apply,
            match gap_report_dir { Some(s) => Some(s@), None => None },
            workspace_root@,
            cwd@,
            user_dir@,
            main_plan_path@,
            fm_plan_path@,
            r,
            old(err)@,
            final(err)@,
        ),
{
    let corpus_path = match resolve_src_path(corpus_path_str, workspace_root, cwd, tree) {
        Some(p) => p,
        None => {
            err.append("error: corpus path '");
            err.append(corpus_path_str);
            err.append("' not found\nHint: paths are resolved from workspace root (");
            err.append(workspace_root);
            err.append(")");
            err.append("\n");
            return ApplyRun::Exit(2);
        },
    };
    let template = match load_cli_template(template_spec, workspace_root, user_dir, tree, err) {
        Some(t) => t,
        None => return ApplyRun::Exit(2),
    };
    let capability = if apply {
        check_anchor_frontmatter(anchor_runner)
    } else {
        Ok(())
    };
    let ghost c = corpus_path@;
    let ghost tv = template@;
    let ghost cap = capability;
    let r = start_after_check(corpus_path, template, apply, gap_report_dir, workspace_root, capability, tree, main_plan_path, fm_plan_path, err);
    proof {
        assert(if apply { anchor_runner.capability_outcome(cap) } else { cap is Ok });
        assert(started_result(
            tree@,
            c,
            tv,
            apply,
            match gap_report_dir { Some(s) => Some(s@), None => None },
            workspace_root@,
            cap,
            main_plan_path@,
            fm_plan_path@,
            r,
            old(err)@,
            err@,
        ));
    }
    r
}

/// The text a finished run prints: the mode line and the step summary on
/// standard output; for a failed run, the error on standard error.
pub open spec fn finish_text(o: OutcomeView, apply: bool) -> (Seq<char>, Seq<char>) {
    (
        "canon align --"@ + (if apply { "apply"@ } else { "dry-run"@ }) + ":\n"@ + summary_text(outcome_steps(o)),
        match o {
            OutcomeView::Failed(_, _, e) => line("error: "@ + e),
            _ => Seq::empty(),
        },
    )
}

/// Prints how the run ended and returns its exit code.
pub fn finish_apply(outcome: &OrchestratorOutcome, apply: bool, out: &mut String, err: &mut String) -> (r: i32)
    ensures
        r == outcome_exit_code(outcome@),
        final(out)@ =~= old(out)@ + finish_text(outcome@, apply).0,
        final(err)@ =~= old(err)@ + finish_text(outcome@, apply).1,
{
    out.append("canon align --");
    if apply {
        out.append("apply");
    } else {
        out.append("dry-run");
    }
    out.append(":\n");
    print_pipeline_summary(outcome, out);
    match outcome {
        OrchestratorOutcome::Failed { error, .. } => {
            err.append("error: ");
            err.append(error.as_str());
            err.append("\n");
        },
        _ => {},
    }
    outcome.exit_code()
}

} // verus!
