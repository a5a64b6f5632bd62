use canon_core::audit::drift::DriftCategory;
use canon_core::audit::run_audit;
use canon_core::cli::audit::{run_impl, OutputFormat};
use canon_core::files::{FileNode, FileTree, NodeKind};
use canon_core::template::TemplateLoader;

const WS: &str = "/ws";
const FIXTURES: &str = "/ws/canon/tests/fixtures/audit";
const TEMPLATE_DIR: &str = "/ws/.accelmars/canon/templates/accelmars-standard";

const MANIFEST: &str = "name = \"accelmars-standard\"\nversion = \"1.0.0\"\ndescription = \"numbered tiers, strict frontmatter\"\n\n[folder_rules]\nshape = \"numbered-tiers\"\n\n[frontmatter]\nschema = \"frontmatter.schema.json\"\n\n[invariants]\nindex_required = true\ngaps_folder = \"41-gaps\"\natomic_file_gate = true\n";

const SCHEMA: &str = r#"{
  "type": "object",
  "required": ["title", "status"],
  "properties": {
    "title": {"type": "string"},
    "status": {"type": "string", "enum": ["active", "stale", "archived"]},
    "tags": {"type": "array"}
  }
}"#;

const GOOD_FM: &str = "---\ntitle: Fine\nstatus: active\n---\n# Fine\n";

fn d(p: &str) -> FileNode {
    FileNode { path: p.to_string(), kind: NodeKind::Dir, link: false, text: None }
}

fn f(p: &str, t: &str) -> FileNode {
    FileNode { path: p.to_string(), kind: NodeKind::File, link: false, text: Some(t.to_string()) }
}

fn base_nodes() -> Vec<FileNode> {
    vec![
        d(WS),
        d("/ws/.accelmars"),
        d("/ws/.accelmars/canon"),
        d("/ws/.accelmars/canon/templates"),
        d(TEMPLATE_DIR),
        f(&format!("{TEMPLATE_DIR}/manifest.toml"), MANIFEST),
        f(&format!("{TEMPLATE_DIR}/frontmatter.schema.json"), SCHEMA),
        d("/ws/canon"),
        d("/ws/canon/tests"),
        d("/ws/canon/tests/fixtures"),
        d(FIXTURES),
    ]
}

/// A conformant corpus at `root`, plus `extra` nodes.
fn corpus_nodes(root: &str, extra: Vec<FileNode>) -> Vec<FileNode> {
    let mut v = vec![
        d(root),
        d(&format!("{root}/01-identity")),
        f(&format!("{root}/01-identity/_INDEX.md"), GOOD_FM),
        f(&format!("{root}/01-identity/overview.md"), GOOD_FM),
        d(&format!("{root}/41-gaps")),
        f(&format!("{root}/41-gaps/_INDEX.md"), GOOD_FM),
    ];
    v.extend(extra);
    v
}

fn fixture_tree() -> FileTree {
    let mut nodes = base_nodes();
    let c = |n: &str| format!("{FIXTURES}/{n}");
    nodes.extend(corpus_nodes(&c("clean-corpus"), vec![]));
    nodes.extend(corpus_nodes(&c("folder-shape-drift"), vec![d(&c("folder-shape-drift/analysis")), f(&c("folder-shape-drift/analysis/note.md"), GOOD_FM)]));
    nodes.extend(corpus_nodes(&c("missing-index"), vec![d(&c("missing-index/02-design"))]));
    nodes.extend(corpus_nodes(&c("frontmatter-required-missing"), vec![f(&c("frontmatter-required-missing/01-identity/x.md"), "---\nstatus: active\n---\n")]));
    nodes.extend(corpus_nodes(&c("frontmatter-type-wrong"), vec![f(&c("frontmatter-type-wrong/01-identity/x.md"), "---\ntitle: 42\nstatus: active\n---\n")]));
    nodes.extend(corpus_nodes(&c("frontmatter-value-invalid"), vec![f(&c("frontmatter-value-invalid/01-identity/x.md"), "---\ntitle: X\nstatus: bogus\n---\n")]));
    nodes.extend(corpus_nodes(&c("unknown-field"), vec![f(&c("unknown-field/01-identity/x.md"), "---\ntitle: X\nstatus: active\ncustom_field: 1\n---\n")]));
    let mut inv = vec![
        d(&c("invariant-violation")),
        d(&c("invariant-violation/01-identity")),
        f(&c("invariant-violation/01-identity/_INDEX.md"), GOOD_FM),
        f(&c("invariant-violation/41-gaps"), "not a folder"),
    ];
    nodes.append(&mut inv);
    // The heuristic findings alone, in otherwise conformant corpora.
    let big = format!("---\ntitle: Big\nstatus: active\n---\n{}", "line\n".repeat(510));
    nodes.extend(corpus_nodes(&c("graduation-candidate-only"), vec![f(&c("graduation-candidate-only/01-identity/big.md"), &big)]));
    let split = "---\ntitle: S\nstatus: active\n---\n## a\n## b\n## c\n## d\n";
    nodes.extend(corpus_nodes(&c("content-split-only"), vec![f(&c("content-split-only/01-identity/split.md"), split)]));
    // The heuristic fixtures: a long file and a many-section file, written
    // without frontmatter.
    let big_bare = format!("# Big File\n{}", "line of content\n".repeat(510));
    nodes.extend(corpus_nodes(&c("graduation-candidate"), vec![f(&c("graduation-candidate/01-identity/big-file.md"), &big_bare)]));
    let split_bare = "# Split\n## a\ntext\n## b\ntext\n## c\ntext\n## d\ntext\n";
    nodes.extend(corpus_nodes(&c("content-split"), vec![f(&c("content-split/01-identity/split.md"), split_bare)]));
    let gw = "/ws/accelmars-workspace/foundations/gateway-engine";
    nodes.push(d("/ws/accelmars-workspace"));
    nodes.push(d("/ws/accelmars-workspace/foundations"));
    nodes.extend(corpus_nodes(gw, vec![d(&format!("{gw}/providers")), f(&format!("{gw}/providers/openai.md"), "# no frontmatter\n")]));
    FileTree { nodes }
}

fn audit_fixture(name: &str, spec: &str, format: OutputFormat) -> i32 {
    let (code, _, _) = audit_fixture_text(name, spec, format);
    code
}

fn audit_fixture_text(name: &str, spec: &str, format: OutputFormat) -> (i32, String, String) {
    let corpus = format!("{FIXTURES}/{name}");
    let mut out = String::new();
    let mut err = String::new();
    let code = run_impl(&corpus, spec, format, WS, WS, "/home/u/.config/canon/templates", &fixture_tree(), &mut out, &mut err);
    (code, out, err)
}

fn entries_of(name: &str) -> Vec<DriftCategory> {
    let loader = TemplateLoader::from_workspace_root(WS, "/home/u/.config/canon/templates");
    let tree = fixture_tree();
    let template = loader.load_by_name("accelmars-standard", &tree).expect("accelmars-standard must resolve");
    let entries = run_audit(&format!("{FIXTURES}/{name}"), &template, &tree).expect("audit must not error");
    entries.iter().map(|e| e.category).collect()
}

#[test]
fn clean_baseline_exits_0() {
    let code = audit_fixture("clean-corpus", "accelmars-standard", OutputFormat::Table);
    assert_eq!(code, 0, "clean-corpus should produce no blocking drift");
}

#[test]
fn clean_baseline_run_audit_returns_no_blocking_entries() {
    let cats = entries_of("clean-corpus");
    let blocking: Vec<_> = cats.iter().filter(|c| !c.is_informational()).collect();
    assert!(blocking.is_empty(), "clean-corpus should have no blocking drift; got: {:?}", blocking);
}

#[test]
fn drift_baseline_gateway_engine_exits_1() {
    let mut out = String::new();
    let mut err = String::new();
    let code = run_impl(
        "/ws/accelmars-workspace/foundations/gateway-engine",
        "accelmars-standard",
        OutputFormat::Table,
        WS,
        WS,
        "/home/u/.config/canon/templates",
        &fixture_tree(),
        &mut out,
        &mut err,
    );
    assert_eq!(code, 1, "gateway-engine should have blocking drift");
}

#[test]
fn folder_shape_drift_fires() {
    assert!(entries_of("folder-shape-drift").contains(&DriftCategory::FolderShape), "FolderShape must fire for folder-shape-drift fixture");
    assert_eq!(audit_fixture("folder-shape-drift", "accelmars-standard", OutputFormat::Table), 1);
}

#[test]
fn missing_index_drift_fires() {
    assert!(entries_of("missing-index").contains(&DriftCategory::MissingIndex), "MissingIndex must fire for missing-index fixture");
    assert_eq!(audit_fixture("missing-index", "accelmars-standard", OutputFormat::Table), 1);
}

#[test]
fn frontmatter_required_missing_fires() {
    assert!(entries_of("frontmatter-required-missing").contains(&DriftCategory::FrontmatterRequiredMissing), "FrontmatterRequiredMissing must fire");
    assert_eq!(audit_fixture("frontmatter-required-missing", "accelmars-standard", OutputFormat::Table), 1);
}

#[test]
fn frontmatter_type_wrong_fires() {
    assert!(entries_of("frontmatter-type-wrong").contains(&DriftCategory::FrontmatterTypeWrong), "FrontmatterTypeWrong must fire");
    assert_eq!(audit_fixture("frontmatter-type-wrong", "accelmars-standard", OutputFormat::Table), 1);
}

#[test]
fn frontmatter_value_invalid_fires() {
    assert!(entries_of("frontmatter-value-invalid").contains(&DriftCategory::FrontmatterValueInvalid), "FrontmatterValueInvalid must fire");
    assert_eq!(audit_fixture("frontmatter-value-invalid", "accelmars-standard", OutputFormat::Table), 1);
}

#[test]
fn unknown_field_info_fires() {
    assert!(entries_of("unknown-field").contains(&DriftCategory::UnknownFieldInfo), "UnknownFieldInfo must fire for unknown frontmatter field");
    assert_eq!(
        audit_fixture("unknown-field", "accelmars-standard", OutputFormat::Table),
        0,
        "unknown field is informational and must not cause exit 1"
    );
}

#[test]
fn invariant_violation_fires() {
    assert!(entries_of("invariant-violation").contains(&DriftCategory::InvariantViolation), "InvariantViolation must fire when gaps_folder is a file");
    assert_eq!(audit_fixture("invariant-violation", "accelmars-standard", OutputFormat::Table), 1);
}

#[test]
fn graduation_candidate_fires() {
    assert!(
        entries_of("graduation-candidate").contains(&DriftCategory::GraduationCandidate),
        "GraduationCandidate must fire for file > 500 lines"
    );
    // The fixture's long file has no frontmatter, which blocks: exit 1.
    assert_eq!(audit_fixture("graduation-candidate", "accelmars-standard", OutputFormat::Table), 1);
}

#[test]
fn content_split_suggested_fires() {
    assert!(
        entries_of("content-split").contains(&DriftCategory::ContentSplitSuggested),
        "ContentSplitSuggested must fire for file with 4+ H2 sections"
    );
    assert_eq!(audit_fixture("content-split", "accelmars-standard", OutputFormat::Table), 1);
}

#[test]
fn heuristic_categories_fire_but_do_not_block() {
    assert!(entries_of("graduation-candidate-only").contains(&DriftCategory::GraduationCandidate));
    assert!(entries_of("content-split-only").contains(&DriftCategory::ContentSplitSuggested));
    assert_eq!(audit_fixture("graduation-candidate-only", "accelmars-standard", OutputFormat::Table), 0);
    assert_eq!(audit_fixture("content-split-only", "accelmars-standard", OutputFormat::Table), 0);
}

#[test]
fn nonexistent_corpus_exits_2() {
    let mut out = String::new();
    let mut err = String::new();
    let code = run_impl(
        "/tmp/does-not-exist-canon-test-99999",
        "canon-default",
        OutputFormat::Table,
        WS,
        WS,
        "/home/u/.config/canon/templates",
        &fixture_tree(),
        &mut out,
        &mut err,
    );
    assert_eq!(code, 2, "nonexistent corpus must exit 2");
    assert!(err.contains("not found"), "error message must mention 'not found'");
}

#[test]
fn nonexistent_template_exits_2() {
    let code = audit_fixture("clean-corpus", "does-not-exist-template-abc123", OutputFormat::Table);
    assert_eq!(code, 2, "nonexistent template must exit 2");
    let (_, _, err) = audit_fixture_text("clean-corpus", "does-not-exist-template-abc123", OutputFormat::Table);
    assert_eq!(
        err,
        "error: template 'does-not-exist-template-abc123' not found; searched:\n  /ws/.accelmars/canon/templates/does-not-exist-template-abc123\n  /home/u/.config/canon/templates/does-not-exist-template-abc123\n"
    );
}

#[test]
fn format_json_produces_parseable_json() {
    let (code, output_str, _) = audit_fixture_text("folder-shape-drift", "accelmars-standard", OutputFormat::Json);
    assert_ne!(code, 2, "JSON format must not produce an error");
    let parsed: serde_json::Value = serde_json::from_str(&output_str).expect("JSON output must be parseable");
    assert!(parsed.get("entries").is_some(), "JSON output must contain an 'entries' key");
    assert!(parsed.get("blocking_count").is_some(), "JSON output must contain a 'blocking_count' key");
    assert_eq!(parsed["blocking_count"], 1);
    assert_eq!(parsed["entries"][0]["path"], "analysis");
    assert_eq!(parsed["entries"][0]["category"], "FolderShape");
}

#[test]
fn format_markdown_produces_table() {
    let (code, output_str, _) = audit_fixture_text("folder-shape-drift", "accelmars-standard", OutputFormat::Markdown);
    assert_ne!(code, 2, "markdown format must not produce an error");
    assert!(output_str.contains("| File |"), "markdown output must contain a table header");
}

#[test]
fn table_report_for_clean_corpus_is_one_line() {
    let (code, out, err) = audit_fixture_text("clean-corpus", "accelmars-standard", OutputFormat::Table);
    assert_eq!(code, 0);
    assert_eq!(out, format!("canon audit: no drift found in '{FIXTURES}/clean-corpus'\n"));
    assert_eq!(err, "");
}

#[test]
fn table_report_rows_are_padded() {
    let (code, out, _) = audit_fixture_text("missing-index", "accelmars-standard", OutputFormat::Table);
    assert_eq!(code, 1);
    let expected_row = format!("{:<40} {:<30} {}\n", "02-design", "MissingIndex", "numbered folder '02-design' is missing _INDEX.md");
    assert!(out.contains(&expected_row), "out={out}");
    assert!(out.ends_with("\n1 blocking drift entries.\n"), "out={out}");
}
