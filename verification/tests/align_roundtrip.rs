use canon_core::audit::drift::DriftCategory;
use canon_core::audit::run_audit;
use canon_core::cli::align::{run_impl, AlignPlanRun};
use canon_core::files::{FileNode, FileTree, NodeKind};
use canon_core::plan::types::MainPlanOp;
use canon_core::plan::{DefaultJudgmentEmitter, MechanicalPlanEmitter};
use canon_core::template::TemplateLoader;

const WS: &str = "/ws";
const CANON: &str = "/ws/canon";
const RULES_TEMPLATE: &str = "/ws/canon/tests/fixtures/templates/test-with-rules";
const USER: &str = "/home/u/.config/canon/templates";

fn d(p: &str) -> FileNode {
    FileNode { path: p.to_string(), kind: NodeKind::Dir, link: false, text: None }
}

fn f(p: &str, t: &str) -> FileNode {
    FileNode { path: p.to_string(), kind: NodeKind::File, link: false, text: Some(t.to_string()) }
}

fn fixture_tree() -> FileTree {
    let fx = "/ws/canon/tests/fixtures/align";
    let good = "---\ntitle: T\nschema_version: 1\n---\n";
    FileTree {
        nodes: vec![
            d(WS),
            d(CANON),
            d("/ws/canon/tests"),
            d("/ws/canon/tests/fixtures"),
            d("/ws/canon/tests/fixtures/templates"),
            d(RULES_TEMPLATE),
            f(
                &format!("{RULES_TEMPLATE}/manifest.toml"),
                "name = \"test-with-rules\"\nversion = \"1.0.0\"\ndescription = \"rules\"\n[folder_rules]\nshape = \"numbered-tiers\"\n[frontmatter]\nschema = \"schema.json\"\n",
            ),
            f(
                &format!("{RULES_TEMPLATE}/folder-rules.toml"),
                "[[categories]]\nnumber = \"32\"\nfolder = \"32-analysis\"\nwhat = \"Analysis\"\nlayer = \"universal\"\n\n[[categories]]\nnumber = \"01\"\nfolder = \"01-identity\"\nwhat = \"Identity\"\nlayer = \"universal\"\n",
            ),
            f(
                &format!("{RULES_TEMPLATE}/schema.json"),
                "{\"type\": \"object\", \"required\": [\"title\", \"schema_version\"], \"properties\": {\"title\": {\"type\": \"string\"}, \"schema_version\": {\"type\": \"integer\"}}}",
            ),
            d(fx),
            d(&format!("{fx}/numbered-clean")),
            d(&format!("{fx}/numbered-clean/01-identity")),
            f(&format!("{fx}/numbered-clean/01-identity/_INDEX.md"), good),
            d(&format!("{fx}/unnumbered-drift")),
            d(&format!("{fx}/unnumbered-drift/analysis")),
            f(&format!("{fx}/unnumbered-drift/analysis/brief.md"), good),
            d(&format!("{fx}/unnumbered-drift/identity")),
            f(&format!("{fx}/unnumbered-drift/identity/who.md"), good),
            d(&format!("{fx}/frontmatter-drift")),
            d(&format!("{fx}/frontmatter-drift/01-identity")),
            f(&format!("{fx}/frontmatter-drift/01-identity/_INDEX.md"), "---\ntitle: T\n---\n"),
        ],
    }
}

fn load_template_with_rules(tree: &FileTree) -> canon_core::template::LoadedTemplate {
    TemplateLoader::from_workspace_root(CANON, USER).load_by_path(RULES_TEMPLATE, tree).expect("test-with-rules template must exist")
}

fn run_align(corpus: &str, output: &str) -> (i32, String, String, String) {
    let mut err = String::new();
    match run_impl(corpus, RULES_TEMPLATE, output, None, WS, CANON, USER, &fixture_tree(), &mut err) {
        AlignPlanRun::Write(w) => (w.exit_code, w.main_toml, w.fm_toml, err),
        AlignPlanRun::Exit(c) => (c, String::new(), String::new(), err),
    }
}

#[test]
fn clean_baseline_produces_empty_main_plan() {
    let (code, main, _, err) = run_align("/ws/canon/tests/fixtures/align/numbered-clean", "/ws/canon/target/clean.toml");
    assert_eq!(code, 0, "expected exit 0 for clean corpus; err={err}");
    assert!(main.starts_with("version = \"1\""));
    assert!(!main.contains("[[ops]]"), "clean corpus should produce no structural ops; got: {main}");
}

#[test]
fn clean_baseline_produces_empty_fm_plan() {
    let (code, _, fm, err) = run_align("/ws/canon/tests/fixtures/align/numbered-clean", "/ws/canon/target/clean-fm.toml");
    assert_eq!(code, 0, "err={err}");
    assert!(!fm.contains("[[ops]]"), "clean corpus should have no FM ops");
}

#[test]
fn drift_baseline_unnumbered_folders_produce_move_ops() {
    let (code, main, _, err) = run_align("/ws/canon/tests/fixtures/align/unnumbered-drift", "/ws/canon/target/drift.toml");
    assert!(code == 1 || code == 0, "unexpected error; err={err}");
    assert!(main.contains("type = \"move\""), "expected move ops for unnumbered folders; got: {main}");
}

#[test]
fn drift_baseline_missing_frontmatter_produces_fm_ops() {
    let (code, _, fm, err) = run_align("/ws/canon/tests/fixtures/align/frontmatter-drift", "/ws/canon/target/fm.toml");
    assert!(code <= 1, "unexpected error; err={err}");
    assert!(fm.contains("[[ops]]"), "expected FM ops for frontmatter drift; got: {fm}");
    assert!(fm.contains("schema_version"), "expected schema_version field in FM ops; got: {fm}");
}

#[test]
fn roundtrip_move_ops_match_reference_renames() {
    let tree = fixture_tree();
    let corpus = "/ws/canon/tests/fixtures/align/unnumbered-drift";
    let template = load_template_with_rules(&tree);
    let judge = DefaultJudgmentEmitter;
    let emitter = MechanicalPlanEmitter::new(&judge);
    let drift = run_audit(corpus, &template, &tree).expect("audit must succeed");
    let emission = emitter.emit_with_root(corpus, &drift, &template, Some(CANON), &tree).expect("emit must succeed");
    let mut moves: Vec<(String, String)> = emission
        .main_plan
        .ops
        .iter()
        .filter_map(|op| {
            if let MainPlanOp::Move { src, dst } = op {
                let s = src.split('/').next_back().unwrap_or(src).to_string();
                let t = dst.split('/').next_back().unwrap_or(dst).to_string();
                Some((s, t))
            } else {
                None
            }
        })
        .collect();
    moves.sort();
    let mut expected = vec![("analysis".to_string(), "32-analysis".to_string()), ("identity".to_string(), "01-identity".to_string())];
    expected.sort();
    assert_eq!(moves, expected, "move ops do not match expected folder renames");
}

#[test]
fn determinism_identical_runs_produce_identical_output() {
    let (c1, m1, _, e1) = run_align("/ws/canon/tests/fixtures/align/unnumbered-drift", "/ws/canon/target/det.toml");
    let (c2, m2, _, e2) = run_align("/ws/canon/tests/fixtures/align/unnumbered-drift", "/ws/canon/target/det.toml");
    assert!(c1 <= 1, "first run failed: {e1}");
    assert!(c2 <= 1, "second run failed: {e2}");
    assert_eq!(m1, m2, "two identical runs produced different TOML");
}

#[test]
fn audit_of_unnumbered_corpus_reports_folder_shape_drift() {
    let tree = fixture_tree();
    let template = load_template_with_rules(&tree);
    let drift = run_audit("/ws/canon/tests/fixtures/align/unnumbered-drift", &template, &tree).unwrap();
    let folder_shape: Vec<_> = drift.iter().filter(|e| e.category == DriftCategory::FolderShape).collect();
    assert!(!folder_shape.is_empty(), "expected FolderShape drift in unnumbered corpus");
}

#[test]
fn move_ops_are_workspace_relative() {
    let (_, main, _, _) = run_align("/ws/canon/tests/fixtures/align/unnumbered-drift", "/ws/canon/target/rel.toml");
    assert!(main.contains("src = \"canon/tests/fixtures/align/unnumbered-drift/analysis\""), "main={main}");
    assert!(main.contains("dst = \"canon/tests/fixtures/align/unnumbered-drift/32-analysis\""), "main={main}");
}
