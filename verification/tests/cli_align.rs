use canon_core::cli::align::{derive_fm_path, run_impl, AlignPlanRun};
use canon_core::cli::align_apply::{finish_apply, run_impl as apply_run_impl, ApplyRun};
use canon_core::cli::{run_with_io, Command};
use canon_core::cli::audit::OutputFormat;
use canon_core::files::{FileNode, FileTree, NodeKind};
use canon_core::orchestrator::anchor_runner::MockAnchorRunner;
use canon_core::orchestrator::PipelineStep;

const USER: &str = "/home/u/.config/canon/templates";

fn d(p: &str) -> FileNode {
    FileNode { path: p.to_string(), kind: NodeKind::Dir, link: false, text: None }
}

fn f(p: &str, t: &str) -> FileNode {
    FileNode { path: p.to_string(), kind: NodeKind::File, link: false, text: Some(t.to_string()) }
}

fn workspace(dir: &str, name: &str) -> FileTree {
    FileTree {
        nodes: vec![
            d(dir),
            d(&format!("{dir}/.accelmars")),
            d(&format!("{dir}/.accelmars/canon")),
            d(&format!("{dir}/.accelmars/canon/templates")),
            d(&format!("{dir}/.accelmars/canon/templates/{name}")),
            f(
                &format!("{dir}/.accelmars/canon/templates/{name}/manifest.toml"),
                &format!("name = \"{name}\"\nversion = \"1.0.0\"\ndescription = \"test\"\n[folder_rules]\nshape = \"numbered-tiers\"\n"),
            ),
            d(&format!("{dir}/corpus")),
            d(&format!("{dir}/corpus/01-identity")),
            f(&format!("{dir}/corpus/01-identity/_INDEX.md"), ""),
        ],
    }
}

fn args(parts: &[&str]) -> Vec<String> {
    parts.iter().map(|s| s.to_string()).collect()
}

#[test]
fn derive_fm_path_adds_suffix() {
    let fm = derive_fm_path("/tmp/corpus-plan.toml");
    assert_eq!(fm, "/tmp/corpus-plan.fm-plan.toml");
}

#[test]
fn align_errors_on_missing_corpus() {
    let tree = FileTree { nodes: vec![d("/t")] };
    let mut err = String::new();
    let r = run_impl("nonexistent-corpus", "canon-default", "plan.toml", None, "/t", "/t", USER, &tree, &mut err);
    assert!(matches!(r, AlignPlanRun::Exit(2)));
    assert!(err.contains("not found"), "err={err}");
}

#[test]
fn align_errors_on_missing_template() {
    let tree = FileTree { nodes: vec![d("/t"), d("/t/corpus")] };
    let mut err = String::new();
    let r = run_impl("/t/corpus", "nonexistent-template", "plan.toml", None, "/t", "/t", USER, &tree, &mut err);
    assert!(matches!(r, AlignPlanRun::Exit(2)));
    assert!(err.contains("not found"), "err={err}");
}

#[test]
fn align_clean_corpus_exit_0() {
    let tree = workspace("/t", "test-clean");
    let mut err = String::new();
    let r = run_impl("/t/corpus", "test-clean", "/t/out.toml", None, "/t", "/t", USER, &tree, &mut err);
    let w = match r {
        AlignPlanRun::Write(w) => w,
        AlignPlanRun::Exit(c) => panic!("exit {c}; err: {err}"),
    };
    assert_eq!(w.exit_code, 0, "err: {err}");
    assert_eq!(w.main_path, "/t/out.toml", "plan not written");
    assert!(w.main_toml.starts_with("version = \"1\""));
    assert!(!w.main_toml.contains("[[ops]]"));
    assert_eq!(w.fm_path, "/t/out.fm-plan.toml");
    assert_eq!(w.summary, "canon align: wrote plan to '/t/out.toml' (0 structural ops, 0 FM ops, 0 gap rows)\n");
}

#[test]
fn align_relative_output_resolves_from_cwd() {
    let tree = workspace("/t", "test-clean");
    let mut err = String::new();
    let r = run_impl("corpus", "test-clean", "plans/out.toml", Some("fm.toml"), "/t", "/cwd", USER, &tree, &mut err);
    match r {
        AlignPlanRun::Write(w) => {
            assert_eq!(w.main_path, "/cwd/plans/out.toml");
            assert_eq!(w.fm_path, "/cwd/fm.toml");
        }
        AlignPlanRun::Exit(c) => panic!("exit {c}; err: {err}"),
    }
}

#[test]
fn align_apply_dry_run_clean_corpus_exits_0() {
    let tree = workspace("/t", "test-apply-cli");
    let runner = MockAnchorRunner::succeeds();
    let mut err = String::new();
    let r = apply_run_impl("/t/corpus", "test-apply-cli", false, None, "/t", "/t", USER, &runner, &tree, "/tmp/m.toml".to_string(), "/tmp/f.toml".to_string(), &mut err);
    let outcome = match r {
        ApplyRun::Started(_, PipelineStep::Done(o)) => o,
        other => panic!("a dry run ends at start; got {:?}; err={err}", other),
    };
    let mut out = String::new();
    let code = finish_apply(&outcome, false, &mut out, &mut err);
    assert_eq!(code, 0, "err={err}");
    assert!(out.contains("dry-run"), "out={out}");
}

#[test]
fn apply_anchor_missing_exits_2_with_message() {
    let tree = workspace("/t", "test-apply-cli");
    let runner = MockAnchorRunner::anchor_missing();
    let mut err = String::new();
    let r = apply_run_impl("/t/corpus", "test-apply-cli", true, None, "/t", "/t", USER, &runner, &tree, "/tmp/m.toml".to_string(), "/tmp/f.toml".to_string(), &mut err);
    assert!(matches!(r, ApplyRun::Exit(2)));
    assert!(err.contains("AENG-006"), "expected AENG-006 in error, got: {err}");
}

#[test]
fn missing_corpus_exits_2() {
    let tree = FileTree { nodes: vec![d("/t")] };
    let runner = MockAnchorRunner::succeeds();
    let mut err = String::new();
    let r = apply_run_impl("nonexistent-corpus", "test-apply-cli", false, None, "/t", "/t", USER, &runner, &tree, "/tmp/m.toml".to_string(), "/tmp/f.toml".to_string(), &mut err);
    assert!(matches!(r, ApplyRun::Exit(2)));
}

#[test]
fn command_line_routes_subcommands() {
    let mut out = String::new();
    let mut err = String::new();
    match run_with_io(&args(&["audit", "c", "-t", "x", "--format", "json"]), &mut out, &mut err) {
        Ok(Command::Audit { corpus, template, format }) => {
            assert_eq!(corpus, "c");
            assert_eq!(template, "x");
            assert_eq!(format, OutputFormat::Json);
        }
        other => panic!("unexpected {:?}", other),
    }
    match run_with_io(&args(&["align", "c", "-t", "x", "-o", "p.toml"]), &mut out, &mut err) {
        Ok(Command::AlignPlan { output, fm_output, .. }) => {
            assert_eq!(output, "p.toml");
            assert_eq!(fm_output, None);
        }
        other => panic!("unexpected {:?}", other),
    }
    match run_with_io(&args(&["align", "c", "-t", "x", "--apply"]), &mut out, &mut err) {
        Ok(Command::AlignApply { apply, .. }) => assert!(apply),
        other => panic!("unexpected {:?}", other),
    }
    match run_with_io(&args(&["template", "list"]), &mut out, &mut err) {
        Ok(Command::Template { args }) => assert_eq!(args, vec!["list".to_string()]),
        other => panic!("unexpected {:?}", other),
    }
    assert_eq!(out, "");
    assert_eq!(err, "");
}

#[test]
fn command_line_usage_errors() {
    let mut out = String::new();
    let mut err = String::new();
    assert!(matches!(run_with_io(&args(&["audit", "c", "--format", "xml", "-t", "x"]), &mut out, &mut err), Err(2)));
    assert_eq!(err, "error: unknown format 'xml'; valid values: table, json, markdown\n");
    let mut err = String::new();
    assert!(matches!(run_with_io(&args(&["audit", "c"]), &mut out, &mut err), Err(2)));
    assert!(err.starts_with("error: --template is required\nUSAGE:"));
    let mut err = String::new();
    assert!(matches!(run_with_io(&args(&["frob"]), &mut out, &mut err), Err(2)));
    assert_eq!(err, "canon: unknown subcommand 'frob'. Try 'canon audit --help', 'canon align --help', or 'canon template --help'.\n");
    let mut out = String::new();
    assert!(matches!(run_with_io(&args(&["audit", "--help"]), &mut out, &mut err), Err(0)));
    assert!(out.starts_with("USAGE:\n  canon audit <corpus-path>"));
}

#[test]
fn root_help_and_version_exit_0() {
    for a in [vec![], vec!["--help"], vec!["-h"]] {
        let mut out = String::new();
        let mut err = String::new();
        assert!(matches!(run_with_io(&args(&a), &mut out, &mut err), Err(0)));
        assert!(out.starts_with("canon — structure-template audit and alignment\n\nUSAGE:\n  canon <subcommand>"));
        assert!(out.ends_with("options of a subcommand.\n"));
        assert_eq!(err, "");
    }
    for a in [vec!["--version"], vec!["-V"]] {
        let mut out = String::new();
        let mut err = String::new();
        assert!(matches!(run_with_io(&args(&a), &mut out, &mut err), Err(0)));
        assert_eq!(out, "canon 0.2.0\n");
        assert_eq!(err, "");
    }
}
