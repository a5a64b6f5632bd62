//! `canon align --output`: writes the anchor plan and the migration plan.

use vstd::prelude::*;
use vstd::string::StringExecFns;
use crate::audit::{audit_drift, run_audit, schema_outcome, SchemaOutcome};
use crate::audit::drift::{DriftView, any_blocking, has_blocking_drift};
use crate::cli::audit::{corpus_missing_msg, line, load_cli_template, resolve_src_path, resolved_src, spec_template, template_failure_msg};
use crate::files::{FileTree, NodeView, file_name, file_name_of, is_absolute, join_path, last_index, parent, parent_of, path_join};
use crate::orchestrator::pipeline::schema_failure_text;
use crate::plan::emitter::{MechanicalPlanEmitter, corpus_name, fm_description, folder_map, main_description, path_root, planned_cases, planned_fm_ops, planned_main_ops};
use crate::plan::judgment_iface::DefaultJudgmentEmitter;
use crate::plan::types::{CaseView, GapReportRow, fm_plan_toml, judgment_name, main_plan_toml, row_views};
use crate::template::LoadedTemplate;
use crate::template::manifest::TemplateView;
use crate::text::{decimal, from_chars, slice_chars, to_chars, usize_text};

verus! {

/// The help text of `canon align --output`.
pub const ALIGN_HELP: &'static str = "USAGE:\n  canon align <corpus-path> --template <name|path> --output <plan.toml> [--frontmatter-output <fm-plan.toml>]\n\nARGS:\n  <corpus-path>   Directory to align\n\nOPTIONS:\n--template, -t          Template name or explicit path (required)\n--output, -o            Anchor-compatible plan output path (required)\n--frontmatter-output    FM migration plan path (default: <plan>.fm-plan.toml)\n\nEXIT CODES:\n  0  No drift\n  1  Drift found — plan written\n  2  Error";

/// Writes the help of `canon align --output`.
pub fn print_help(out: &mut String)
    ensures
        final(out)@ == old(out)@ + ALIGN_HELP@ + "\n"@,
{
    out.append(ALIGN_HELP);
    out.append("\n");
}

/// An output path: absolute as given, else relative to the current directory.
pub open spec fn resolved_dst(p: Seq<char>, cwd: Seq<char>) -> Seq<char> {
    if is_absolute(p) {
        p
    } else {
        path_join(cwd, p)
    }
}

/// `Path::file_stem` of a file name: the name without its last extension.
pub open spec fn stem_of(n: Seq<char>) -> Seq<char> {
    if n == ".."@ {
        n
    } else {
        match last_index(n, '.') {
            Some(k) => if k == 0 {
                n
            } else {
                n.take(k)
            },
            None => n,
        }
    }
}

/// The default migration plan path: `<stem>.fm-plan.toml` beside the plan.
pub open spec fn derived_fm_path(main: Seq<char>) -> Seq<char> {
    let stem = match file_name(main) {
        Some(n) => stem_of(n),
        None => "plan"@,
    };
    let dir = match parent(main) {
        Some(p) => p,
        None => "."@,
    };
    path_join(dir, stem + ".fm-plan.toml"@)
}

/// Resolves an output path against the current directory.
pub fn resolve_dst_path(path_str: &str, cwd: &str) -> (r: String)
    ensures
        r@ == resolved_dst(path_str@, cwd@),
{
    let c = to_chars(path_str);
    if c.len() > 0 && c[0] == '/' {
        path_str.to_string()
    } else {
        join_path(cwd, path_str)
    }
}

/// Derives the migration plan path from the main plan path:
/// `my-plan.toml` gives `my-plan.fm-plan.toml`.
pub fn derive_fm_path(main_plan_path: &str) -> (r: String)
    ensures
        r@ == derived_fm_path(main_plan_path@),
{
    let stem = match file_name_of(main_plan_path) {
        Some(n) => {
            let nc = to_chars(n.as_str());
            let dd = to_chars("..");
            if crate::text::chars_eq(nc.as_slice(), dd.as_slice()) {
                n
            } else {
                let mut k = nc.len();
                proof {
                    assert(nc@.take(nc@.len() as int) =~= nc@);
                }
                while k > 0 && nc[k - 1] != '.'
                    invariant
                        k <= nc@.len(),
                        last_index(nc@, '.') == last_index(nc@.take(k as int), '.'),
                    decreases k,
                {
                    proof {
                        assert(nc@.take(k as int).drop_last() =~= nc@.take(k - 1));
                    }
                    k -= 1;
                }
                proof {
                    assert(nc@.take(nc@.len() as int) =~= nc@);
                }
                if k <= 1 {
                    n
                } else {
                    let s = slice_chars(nc.as_slice(), 0, k - 1);
                    proof {
                        assert(s@ =~= nc@.take(k - 1));
                    }
                    from_chars(s.as_slice())
                }
            }
        },
        None => String::from_str("plan"),
    };
    let dir = match parent_of(main_plan_path) {
        Some(p) => p,
        None => String::from_str("."),
    };
    let mut name = stem;
    name.append(".fm-plan.toml");
    join_path(dir.as_str(), name.as_str())
}

/// One gap-row line of the summary.
pub open spec fn gap_row_line(r: CaseView) -> Seq<char> {
    "  ["@ + judgment_name(r.category) + "] "@ + r.path + " — "@ + r.description + "\n"@
}

pub open spec fn gap_row_lines(rows: Seq<CaseView>) -> Seq<char>
    decreases rows.len(),
{
    if rows.len() == 0 {
        Seq::empty()
    } else {
        gap_row_lines(rows.drop_last()) + gap_row_line(rows.last())
    }
}

/// The summary written once both plans are on disk.
pub open spec fn align_summary(out_path: Seq<char>, m: nat, f: nat, rows: Seq<CaseView>) -> Seq<char> {
    line(
        "canon align: wrote plan to '"@ + out_path + "' ("@ + decimal(m) + " structural ops, "@ + decimal(f) + " FM ops, "@
            + decimal(rows.len()) + " gap rows)"@,
    ) + if rows.len() > 0 {
        "\ngap rows (require human judgment):\n"@ + gap_row_lines(rows)
    } else {
        Seq::empty()
    }
}

/// What `canon align --output` decides before writing.
pub enum AlignPlanView {
    /// Ends with this exit code and this text on standard error.
    Stop(i32, Seq<char>),
    /// Writes the plan text to the plan path, then the migration plan text to
    /// its path, then prints the summary and exits with the code.
    Write(Seq<char>, Seq<char>, Seq<char>, Seq<char>, Seq<char>, i32),
}

/// The writes and summary once the audit found `d`.
pub open spec fn align_writes(
    t: Seq<NodeView>,
    c: Seq<char>,
    tv: TemplateView,
    d: Seq<DriftView>,
    ws: Seq<char>,
    out_path: Seq<char>,
    fm_path: Seq<char>,
) -> AlignPlanView {
    let m = folder_map(t, tv.dir, c);
    let root = path_root(c, Some(ws));
    let name = corpus_name(c);
    let main_ops = planned_main_ops(m, root, d);
    let fm_ops = planned_fm_ops(root, d);
    AlignPlanView::Write(
        out_path,
        main_plan_toml(Some(main_description(name)), main_ops),
        fm_path,
        fm_plan_toml(Some(fm_description(name)), fm_ops),
        align_summary(out_path, main_ops.len(), fm_ops.len(), planned_cases(m, d)),
        if any_blocking(d) { 1 } else { 0 },
    )
}

/// `canon align --output`: resolve the corpus, load the template, audit, and
/// emit both plans (the migration plan beside the main plan unless a path is
/// given); exit 1 when the drift blocks.
pub open spec fn align_command(
    t: Seq<NodeView>,
    corpus_str: Seq<char>,
    spec: Seq<char>,
    output: Seq<char>,
    fm_output: Option<Seq<char>>,
    ws: Seq<char>,
    cwd: Seq<char>,
    user_dir: Seq<char>,
) -> AlignPlanView {
    let out_path = resolved_dst(output, cwd);
    let fm_path = match fm_output {
        Some(f) => resolved_dst(f, cwd),
        None => derived_fm_path(out_path),
    };
    match resolved_src(t, corpus_str, ws, cwd) {
        None => AlignPlanView::Stop(2, corpus_missing_msg(corpus_str, ws)),
        Some(c) => match spec_template(t, ws, user_dir, spec) {
            Err(e) => AlignPlanView::Stop(2, template_failure_msg(e)),
            Ok(tv) => match schema_outcome(t, tv) {
                SchemaOutcome::Absent => align_writes(t, c, tv, audit_drift(t, c, tv, None), ws, out_path, fm_path),
                SchemaOutcome::Loaded(s) => align_writes(t, c, tv, audit_drift(t, c, tv, Some(s)), ws, out_path, fm_path),
                so => AlignPlanView::Stop(2, line("error: "@ + schema_failure_text(so))),
            },
        },
    }
}

/// The writes `canon align --output` asks for, with what to print after.
#[derive(Debug)]
pub struct AlignWrites {
    pub main_path: String,
    pub main_toml: String,
    pub fm_path: String,
    pub fm_toml: String,
    pub summary: String,
    pub exit_code: i32,
}

/// What `canon align --output` decides before writing.
#[derive(Debug)]
pub enum AlignPlanRun {
    Exit(i32),
    Write(AlignWrites),
}

fn summary_text_of(out_path: &str, m: usize, f: usize, rows: &Vec<GapReportRow>) -> (r: String)
    ensures
        r@ == align_summary(out_path@, m as nat, f as nat, row_views(rows@)),
{
    let mut s = String::from_str("canon align: wrote plan to '");
    s.append(out_path);
    s.append("' (");
    let a = usize_text(m);
    s.append(a.as_str());
    s.append(" structural ops, ");
    let b = usize_text(f);
    s.append(b.as_str());
    s.append(" FM ops, ");
    let c = usize_text(rows.len());
    s.append(c.as_str());
    s.append(" gap rows)");
    s.append("\n");
    if rows.len() > 0 {
        s.append("\ngap rows (require human judgment):\n");
        let ghost rv = row_views(rows@);
        let ghost s0 = s@;
        for i in 0..rows.len()
            invariant
                rv == row_views(rows@),
                s@ == s0 + gap_row_lines(rv.take(i as int)),
        {
            proof {
                assert(rv.take(i + 1).drop_last() =~= rv.take(i as int));
                assert(rv.take(i + 1).last() == rows@[i as int]@);
            }
            s.append("  [");
            s.append(rows[i].category.as_str());
            s.append("] ");
            s.append(rows[i].path.as_str());
            s.append(" — ");
            s.append(rows[i].description.as_str());
            s.append("\n");
        }
        proof {
            assert(rv.take(rv.len() as int) =~= rv);
        }
    }
    s
}

/// The audit and plan emission of `canon align --output`, once the corpus
/// and template are known.
#[verifier::rlimit(30)]
fn prepare_writes(
    corpus_path: &str,
    template: &LoadedTemplate,
    output_path: String,
    fm_path: String,
    workspace_root: &str,
    tree: &FileTree,
    err: &mut String,
) -> (r: AlignPlanRun)
    ensures
        match schema_outcome(tree@, template@) {
            SchemaOutcome::Absent => align_writes(tree@, corpus_path@, template@, audit_drift(tree@, corpus_path@, template@, None), workspace_root@, output_path@, fm_path@) matches AlignPlanView::Write(mp, mt, fp, ft, s, code)
                && r matches AlignPlanRun::Write(w) && w.main_path@ == mp && w.main_toml@ == mt && w.fm_path@ == fp && w.fm_toml@ == ft && w.summary@ == s && w.exit_code == code && final(err)@ == old(err)@,
            SchemaOutcome::Loaded(sc) => align_writes(tree@, corpus_path@, template@, audit_drift(tree@, corpus_path@, template@, Some(sc)), workspace_root@, output_path@, fm_path@) matches AlignPlanView::Write(mp, mt, fp, ft, s, code)
                && r matches AlignPlanRun::Write(w) && w.main_path@ == mp && w.main_toml@ == mt && w.fm_path@ == fp && w.fm_toml@ == ft && w.summary@ == s && w.exit_code == code && final(err)@ == old(err)@,
            so => r == AlignPlanRun::Exit(2) && final(err)@ =~= old(err)@ + line("error: "@ + schema_failure_text(so)),
        },
{
    let drift = match run_audit(corpus_path, template, tree) {
        Ok(e) => e,
        Err(e) => {
            err.append("error: ");
            let m = e.message();
            err.append(m.as_str());
            err.append("\n");
            return AlignPlanRun::Exit(2);
        },
    };
    let judgment_emitter = DefaultJudgmentEmitter;
    let plan_emitter = MechanicalPlanEmitter::new(&judgment_emitter);
    let emission = match plan_emitter.emit_with_root(corpus_path, drift.as_slice(), template, Some(workspace_root), tree) {
        Ok(em) => em,
        Err(e) => {
            err.append("error: ");
            let m = e.message();
            err.append(m.as_str());
            err.append("\n");
            return AlignPlanRun::Exit(2);
        },
    };
    let main_toml = emission.main_plan.render_toml();
    let fm_toml = emission.fm_plan.render_toml();
    let summary = summary_text_of(output_path.as_str(), emission.main_plan.ops.len(), emission.fm_plan.ops.len(), &emission.gap_rows);
    let exit_code: i32 = if has_blocking_drift(drift.as_slice()) { 1 } else { 0 };
    AlignPlanRun::Write(AlignWrites { main_path: output_path, main_toml, fm_path, fm_toml, summary, exit_code })
}

/// Runs `canon align --output` on a snapshot up to the writes: a failure is
/// reported on `err` with its exit code; otherwise the two plans, their
/// paths, the summary and the exit code are returned for writing.
pub fn run_impl(
    corpus_path_str: &str,
    template_spec: &str,
    output_path_str: &str,
    fm_output_path_str: Option<&str>,
    workspace_root: &str,
    cwd: &str,
    user_dir: &str,
    tree: &FileTree,
    err: &mut String,
) -> (r: AlignPlanRun)
    ensures
        match align_command(
            tree@,
            corpus_path_str@,
            template_spec@,
            output_path_str@,
            match fm_output_path_str { Some(f) => Some(f@), None => None },
            workspace_root@,
            cwd@,
            user_dir@,
        ) {
            AlignPlanView::Stop(code, e) => r == AlignPlanRun::Exit(code) && final(err)@ =~= old(err)@ + e,
            AlignPlanView::Write(mp, mt, fp, ft, s, code) => r matches AlignPlanRun::Write(w) && w.main_path@ == mp && w.main_toml@ == mt
                && w.fm_path@ == fp && w.fm_toml@ == ft && w.summary@ == s && w.exit_code == code && final(err)@ == old(err)@,
        },
{
    let corpus_path = match resolve_src_path(corpus_path_str, workspace_root, cwd, tree) {
        Some(p) => p,
        None => {
            err.append("error: corpus path '");
            err.append(corpus_path_str);
            err.append("' not found\nHint: paths are resolved from workspace root (");
            err.append(workspace_root);
            err.append(")");
            err.append("\n");
            return AlignPlanRun::Exit(2);
        },
    };
    let output_path = resolve_dst_path(output_path_str, cwd);
    let fm_path = match fm_output_path_str {
        Some(f) => resolve_dst_path(f, cwd),
        None => derive_fm_path(output_path.as_str()),
    };
    let template = match load_cli_template(template_spec, workspace_root, user_dir, tree, err) {
        Some(t) => t,
        None => return AlignPlanRun::Exit(2),
    };
    prepare_writes(corpus_path.as_str(), &template, output_path, fm_path, workspace_root, tree, err)
}

/// Reports a failed write of the main plan; the exit code is 2.
pub fn plan_write_failed(path: &str, e: &str, err: &mut String) -> (r: i32)
    ensures
        r == 2,
        final(err)@ == old(err)@ + line("error writing plan to '"@ + path@ + "': I/O error: "@ + e@),
{
    err.append("error writing plan to '");
    err.append(path);
    err.append("': I/O error: ");
    err.append(e);
    err.append("\n");
    2
}

/// Reports a failed write of the migration plan; the exit code is 2.
pub fn fm_plan_write_failed(path: &str, e: &str, err: &mut String) -> (r: i32)
    ensures
        r == 2,
        final(err)@ == old(err)@ + line("error writing FM plan to '"@ + path@ + "': I/O error: "@ + e@),
{
    err.append("error writing FM plan to '");
    err.append(path);
    err.append("': I/O error: ");
    err.append(e);
    err.append("\n");
    2
}

} // verus!
