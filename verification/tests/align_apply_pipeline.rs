use canon_core::cli::align_apply::{finish_apply, run_impl as apply_run_impl, ApplyRun};
use canon_core::files::{FileNode, FileTree, NodeKind};
use canon_core::orchestrator::anchor_runner::{AnchorRunner, MockAnchorRunner};
use canon_core::orchestrator::{
    pipeline_start, pipeline_step, OrchestratorConfig, OrchestratorOutcome, PipelineAction, PipelineEvent, PipelineStep, StepOutcome,
};
use canon_core::template::TemplateLoader;

const WS: &str = "/tmpws";
const TMPL: &str = "/tmpws/.accelmars/canon/templates/test-301";
const USER: &str = "/home/u/.config/canon/templates";

fn d(p: &str) -> FileNode {
    FileNode { path: p.to_string(), kind: NodeKind::Dir, link: false, text: None }
}

fn f(p: &str, t: &str) -> FileNode {
    FileNode { path: p.to_string(), kind: NodeKind::File, link: false, text: Some(t.to_string()) }
}

fn copy_tree(t: &FileTree) -> FileTree {
    FileTree {
        nodes: t.nodes.iter().map(|n| FileNode { path: n.path.clone(), kind: n.kind, link: n.link, text: n.text.clone() }).collect(),
    }
}

fn put(t: &mut FileTree, node: FileNode) {
    t.nodes.retain(|n| n.path != node.path);
    t.nodes.push(node);
}

/// Carries out the pipeline's outside work on the in-memory tree.
fn drive<R: AnchorRunner>(config: &OrchestratorConfig, tree: &mut FileTree, runner: &R, first: PipelineStep) -> OrchestratorOutcome {
    let mut step = first;
    loop {
        match step {
            PipelineStep::Done(o) => return o,
            PipelineStep::Continue(p, action) => {
                let ev = match action {
                    PipelineAction::WriteMainPlan { path, text } => {
                        put(tree, f(&path, &text));
                        PipelineEvent::MainPlanWritten(Ok(()))
                    }
                    PipelineAction::WriteFmPlan { path, text } => {
                        put(tree, f(&path, &text));
                        PipelineEvent::FmPlanWritten(Ok(()))
                    }
                    PipelineAction::RunApply { plan_path } => PipelineEvent::Applied(runner.run_apply(&plan_path)),
                    PipelineAction::ScanCorpus { .. } => PipelineEvent::CorpusScanned(copy_tree(tree), "2026-05-02".to_string()),
                    PipelineAction::WriteIndexStubs { stubs } => {
                        for s in stubs {
                            put(tree, f(&s.path, &s.content));
                        }
                        PipelineEvent::IndexStubsWritten(Ok(()))
                    }
                    PipelineAction::RunFmMigrate { plan_path } => PipelineEvent::Migrated(runner.run_frontmatter_migrate(&plan_path)),
                    PipelineAction::ScanGapDir { .. } => PipelineEvent::GapDirScanned(copy_tree(tree)),
                    PipelineAction::WriteGapFiles { dir, files } => {
                        if !tree.nodes.iter().any(|n| n.path == dir) {
                            put(tree, d(&dir));
                        }
                        for (p, c) in files {
                            put(tree, f(&p, &c));
                        }
                        PipelineEvent::GapFilesWritten(Ok(()))
                    }
                    PipelineAction::ReAudit => PipelineEvent::ReAudited(copy_tree(tree)),
                };
                step = pipeline_step(config, p, ev);
            }
        }
    }
}

fn run_pipeline<R: AnchorRunner>(config: &OrchestratorConfig, tree: &mut FileTree, runner: &R) -> OrchestratorOutcome {
    let first = pipeline_start(config, tree, "/tmp/canon-main-t.toml".to_string(), "/tmp/canon-fm-t.toml".to_string());
    drive(config, tree, runner, first)
}

fn template_nodes() -> Vec<FileNode> {
    vec![
        d(WS),
        d("/tmpws/.accelmars"),
        d("/tmpws/.accelmars/canon"),
        d("/tmpws/.accelmars/canon/templates"),
        d(TMPL),
        f(
            &format!("{TMPL}/manifest.toml"),
            "name = \"test-301\"\nversion = \"1.0.0\"\ndescription = \"CFC-301 test template\"\n[folder_rules]\nshape = \"numbered-tiers\"\n[frontmatter]\nschema = \"schema.json\"\n",
        ),
        f(
            &format!("{TMPL}/folder-rules.toml"),
            "[[categories]]\nnumber = \"32\"\nfolder = \"32-analysis\"\nwhat = \"Analysis\"\nlayer = \"universal\"\n",
        ),
        f(
            &format!("{TMPL}/schema.json"),
            "{\n  \"type\": \"object\",\n  \"required\": [\"title\"],\n  \"properties\": {\n    \"title\": {\"type\": \"string\"}\n  }\n}",
        ),
    ]
}

fn drift_corpus(corpus: &str) -> Vec<FileNode> {
    let big = "# Big File\n".to_string() + &"line of content\n".repeat(510);
    vec![
        d(corpus),
        d(&format!("{corpus}/analysis")),
        f(&format!("{corpus}/analysis/note.md"), "---\ntype: note\n---\n# Note\nSome content.\n"),
        f(&format!("{corpus}/big-file.md"), &big),
    ]
}

fn clean_corpus(corpus: &str) -> Vec<FileNode> {
    vec![
        d(corpus),
        d(&format!("{corpus}/01-identity")),
        f(&format!("{corpus}/01-identity/_INDEX.md"), "---\ntitle: Identity\n---\n"),
        d(&format!("{corpus}/41-gaps")),
        f(&format!("{corpus}/41-gaps/_INDEX.md"), "---\ntitle: Gaps\n---\n"),
    ]
}

fn config_for(tree: &FileTree, corpus: &str, apply: bool, gap_dir: &str) -> OrchestratorConfig {
    let template = TemplateLoader::from_workspace_root(WS, USER).load_by_name("test-301", tree).unwrap();
    OrchestratorConfig {
        corpus_path: corpus.to_string(),
        template,
        apply,
        gap_report_dir: gap_dir.to_string(),
        workspace_root: WS.to_string(),
    }
}

fn canon_files(tree: &FileTree, gap_dir: &str) -> Vec<String> {
    let prefix = format!("{gap_dir}/CANON-");
    let mut v: Vec<String> = tree.nodes.iter().filter(|n| n.path.starts_with(&prefix)).map(|n| n.path.clone()).collect();
    v.sort();
    v
}

#[test]
fn dry_run_drift_fixture_nothing_written_to_disk() {
    let corpus = "/tmpws/corpus";
    let mut nodes = template_nodes();
    nodes.extend(drift_corpus(corpus));
    let mut tree = FileTree { nodes };
    let before = tree.nodes.len();
    let gap_dir = format!("{corpus}/41-gaps");
    let config = config_for(&tree, corpus, false, &gap_dir);
    let outcome = run_pipeline(&config, &mut tree, &MockAnchorRunner::succeeds());
    let skipped = outcome.steps().iter().any(|s| matches!(s, StepOutcome::ApplySkipped));
    assert!(skipped, "dry-run must have ApplySkipped step");
    assert_eq!(tree.nodes.len(), before, "nothing may be written in dry-run");
    assert!(!tree.nodes.iter().any(|n| n.path == gap_dir), "gap dir must not be created in dry-run; path={gap_dir}");
    let plan_step = outcome.steps().iter().find(|s| matches!(s, StepOutcome::Plan { .. }));
    assert!(plan_step.is_some(), "Plan step must be present");
    assert_eq!(outcome.exit_code(), 1, "dry-run with drift should exit 1");
}

#[test]
fn apply_small_fixture_produces_gap_file() {
    let corpus = "/tmpws/corpus";
    let gap_dir = format!("{corpus}/41-gaps");
    let mut nodes = template_nodes();
    nodes.extend(drift_corpus(corpus));
    nodes.push(d(&gap_dir));
    let mut tree = FileTree { nodes };
    let config = config_for(&tree, corpus, true, &gap_dir);
    let outcome = run_pipeline(&config, &mut tree, &MockAnchorRunner::succeeds());
    let has = |pred: fn(&StepOutcome) -> bool| outcome.steps().iter().any(pred);
    assert!(has(|s| matches!(s, StepOutcome::AnchorApply { .. })), "missing AnchorApply step");
    assert!(has(|s| matches!(s, StepOutcome::AnchorFmMigrate { .. })), "missing AnchorFmMigrate step");
    assert!(has(|s| matches!(s, StepOutcome::GapReport { .. })), "missing GapReport step; steps={:?}", outcome.steps());
    assert!(has(|s| matches!(s, StepOutcome::ReAudit { .. })), "missing ReAudit step");
    let files = canon_files(&tree, &gap_dir);
    assert!(!files.is_empty(), "expected ≥1 gap file in {gap_dir}");
    let content = tree.nodes.iter().find(|n| n.path == files[0]).unwrap().text.clone().unwrap();
    assert!(content.contains("type: gap"), "gap file missing 'type: gap'");
    assert!(content.contains("engine: canon"), "gap file missing 'engine: canon'");
    assert!(content.contains("source: canon-template-architecture-CFC-301"), "gap file missing source");
}

#[test]
fn align_apply_pipeline_idempotence_clean_corpus_apply_is_noop() {
    let corpus = "/tmpws/corpus";
    let gap_dir = format!("{corpus}/41-gaps");
    let mut nodes = template_nodes();
    nodes.extend(clean_corpus(corpus));
    let mut tree = FileTree { nodes };
    let config = config_for(&tree, corpus, true, &gap_dir);
    let outcome = run_pipeline(&config, &mut tree, &MockAnchorRunner::succeeds());
    assert_eq!(outcome.exit_code(), 0, "clean corpus + apply must exit 0");
    let plan = outcome.steps().iter().find_map(|s| {
        if let StepOutcome::Plan { main_ops, fm_ops, gap_rows } = s {
            Some((*main_ops, *fm_ops, *gap_rows))
        } else {
            None
        }
    });
    assert_eq!(plan, Some((0, 0, 0)), "clean corpus must produce zero plan ops");
    assert!(canon_files(&tree, &gap_dir).is_empty(), "clean corpus must produce zero gap files");
    let reaudit = outcome.steps().iter().find_map(|s| if let StepOutcome::ReAudit { residual_drift } = s { Some(*residual_drift) } else { None });
    assert_eq!(reaudit, Some(0), "re-audit must show zero residual drift");
}

#[test]
fn anchor_missing_errors_with_aeng006_message() {
    let corpus = "/tmpws/corpus";
    let mut nodes = template_nodes();
    nodes.extend(clean_corpus(corpus));
    let tree = FileTree { nodes };
    let runner = MockAnchorRunner::anchor_missing();
    let mut err_buf = String::new();
    let r = apply_run_impl(
        corpus,
        "test-301",
        true,
        None,
        WS,
        WS,
        USER,
        &runner,
        &tree,
        "/tmp/m.toml".to_string(),
        "/tmp/f.toml".to_string(),
        &mut err_buf,
    );
    assert!(matches!(r, ApplyRun::Exit(2)), "anchor-missing must exit 2");
    assert!(err_buf.contains("AENG-006"), "error must name AENG-006; got: {err_buf}");
}

#[test]
fn apply_failure_propagates_diagnostic_and_exit_nonzero() {
    let corpus = "/tmpws/corpus";
    let gap_dir = format!("{corpus}/41-gaps");
    let mut nodes = template_nodes();
    nodes.extend(drift_corpus(corpus));
    let mut tree = FileTree { nodes };
    let config = config_for(&tree, corpus, true, &gap_dir);
    let diagnostic = "AENG-002: broken reference in analysis/note.md → 01-identity/_INDEX.md";
    let outcome = run_pipeline(&config, &mut tree, &MockAnchorRunner::apply_fails(diagnostic));
    assert!(outcome.exit_code() != 0, "apply failure must exit non-zero");
    let failed = outcome.steps().iter().find_map(|s| {
        if let StepOutcome::AnchorApplyFailed { diagnostic: d, .. } = s {
            Some(d.clone())
        } else {
            None
        }
    });
    assert!(failed.is_some(), "AnchorApplyFailed step not found");
    assert!(failed.unwrap().contains("AENG-002"), "diagnostic must contain AENG-002");
    let has_gap = outcome.steps().iter().any(|s| matches!(s, StepOutcome::GapReport { .. }));
    assert!(!has_gap, "GapReport must not be written after a failed apply");
    match &outcome {
        OrchestratorOutcome::Failed { step_name, error, .. } => {
            assert_eq!(step_name, "anchor-apply");
            assert_eq!(error, &format!("anchor apply exited 1 — {diagnostic}"));
        }
        other => panic!("expected a failed outcome, got {:?}", other),
    }
}

#[test]
fn gap_report_naming_continues_across_runs() {
    let gap_dir = "/tmpws/41-gaps";
    let corpus = "/tmpws/corpus-naming";
    let big = "# Big\n".to_string() + &"x\n".repeat(510);
    let mut nodes = template_nodes();
    nodes.push(d(gap_dir));
    nodes.push(d(corpus));
    nodes.push(d(&format!("{corpus}/analysis")));
    nodes.push(f(&format!("{corpus}/analysis/note.md"), "---\ntype: note\n---\n"));
    nodes.push(f(&format!("{corpus}/big.md"), &big));
    let mut tree = FileTree { nodes };

    let config1 = config_for(&tree, corpus, true, gap_dir);
    run_pipeline(&config1, &mut tree, &MockAnchorRunner::succeeds());
    let count_after_run1 = canon_files(&tree, gap_dir).len();
    assert!(count_after_run1 > 0, "run 1 must produce at least one gap file");

    let config2 = config_for(&tree, corpus, true, gap_dir);
    run_pipeline(&config2, &mut tree, &MockAnchorRunner::succeeds());
    let names = canon_files(&tree, gap_dir);
    assert_eq!(names.len(), count_after_run1 * 2, "run 2 must add the same number of gap files, total doubling");
    let max_run1_n = count_after_run1 as u32;
    let second: u32 = names[count_after_run1]
        .strip_prefix(&format!("{gap_dir}/CANON-"))
        .and_then(|s| s.split('-').next())
        .and_then(|n| n.parse().ok())
        .expect("second run file name must parse");
    assert!(second > max_run1_n, "second run NNN ({second}) must be higher than first run max ({max_run1_n})");
}

#[test]
fn mod_dry_run_clean_corpus_exits_0() {
    let corpus = "/tmpws/corpus";
    let mut nodes = template_nodes();
    nodes.extend(clean_corpus(corpus));
    let mut tree = FileTree { nodes };
    let config = config_for(&tree, corpus, false, &format!("{corpus}/41-gaps"));
    let outcome = run_pipeline(&config, &mut tree, &MockAnchorRunner::succeeds());
    assert_eq!(outcome.exit_code(), 0);
    assert!(outcome.steps().iter().any(|s| matches!(s, StepOutcome::ApplySkipped)), "dry-run should have ApplySkipped step");
}

#[test]
fn dry_run_writes_no_files() {
    let corpus = "/tmpws/corpus";
    let mut nodes = template_nodes();
    nodes.push(d(corpus));
    nodes.push(d(&format!("{corpus}/01-identity")));
    nodes.push(f(&format!("{corpus}/01-identity/_INDEX.md"), "---\ntitle: I\n---\n"));
    let mut tree = FileTree { nodes };
    let gap_dir = format!("{corpus}/41-gaps");
    let config = config_for(&tree, corpus, false, &gap_dir);
    run_pipeline(&config, &mut tree, &MockAnchorRunner::succeeds());
    assert!(!tree.nodes.iter().any(|n| n.path == gap_dir), "no files should be written in dry-run");
}

#[test]
fn mod_idempotence_clean_corpus_apply_is_noop() {
    let corpus = "/tmpws/corpus";
    let gap_dir = format!("{corpus}/41-gaps");
    let mut nodes = template_nodes();
    nodes.extend(clean_corpus(corpus));
    let mut tree = FileTree { nodes };
    let config = config_for(&tree, corpus, true, &gap_dir);
    let outcome = run_pipeline(&config, &mut tree, &MockAnchorRunner::succeeds());
    assert_eq!(outcome.exit_code(), 0);
    assert!(canon_files(&tree, &gap_dir).is_empty(), "clean corpus should produce zero gap files");
}

#[test]
fn apply_run_through_the_command_prints_summary() {
    let corpus = "/tmpws/corpus";
    let mut nodes = template_nodes();
    nodes.extend(clean_corpus(corpus));
    let mut tree = FileTree { nodes };
    let runner = MockAnchorRunner::succeeds();
    let mut err = String::new();
    let r = apply_run_impl(corpus, "test-301", false, None, WS, WS, USER, &runner, &tree, "/tmp/m.toml".to_string(), "/tmp/f.toml".to_string(), &mut err);
    let (config, step) = match r {
        ApplyRun::Started(c, s) => (c, s),
        ApplyRun::Exit(c) => panic!("unexpected exit {c}: {err}"),
    };
    assert_eq!(config.gap_report_dir, "/tmpws/corpus/41-gaps");
    let outcome = drive(&config, &mut tree, &runner, step);
    let mut out = String::new();
    let code = finish_apply(&outcome, false, &mut out, &mut err);
    assert_eq!(code, 0);
    assert!(out.starts_with("canon align --dry-run:\n"), "out={out}");
}

#[test]
fn apply_writes_index_stubs_for_numbered_folders() {
    let corpus = "/tmpws/stubbed";
    let mut tree = FileTree { nodes: template_nodes() };
    for n in [
        d(corpus),
        d(&format!("{corpus}/01-identity")),
        f(&format!("{corpus}/01-identity/overview.md"), "---\ntitle: Overview\n---\n"),
        f(&format!("{corpus}/01-identity/a-notes.md"), "---\ntitle: Notes\n---\n"),
    ] {
        tree.nodes.push(n);
    }
    let gap_dir = format!("{corpus}/41-gaps");
    let config = config_for(&tree, corpus, true, &gap_dir);
    let outcome = run_pipeline(&config, &mut tree, &MockAnchorRunner::succeeds());
    let stub = tree.nodes.iter().find(|n| n.path == format!("{corpus}/01-identity/_INDEX.md")).expect("stub written");
    assert_eq!(
        stub.text.as_deref(),
        Some(
            "---\ntitle: \"01-identity\"\ntype: index\nengine: \"stubbed\"\ncategory: \"identity\"\nstatus: active\nschema_version: 1\ncreated: 2026-05-02\nupdated: 2026-05-02\n---\n\n<!-- TODO: write 1-3 sentence summary of this folder -->\n\n## Contents\n\n| File | Description |\n|------|-------------|\n| [a-notes.md](./a-notes.md) | |\n| [overview.md](./overview.md) | |\n"
        )
    );
    assert!(outcome.steps().iter().any(|s| matches!(s, StepOutcome::IndexStubs { stubs_written: 1 })));
}
